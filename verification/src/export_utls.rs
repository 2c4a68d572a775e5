//! A template in the shape of a uTLS handshake specification.
//!
//! Two forms are written: a structure that mirrors the extension types of
//! uTLS one for one, and a snippet of Go source that declares the
//! specification. Both keep the order of the template.

use vstd::prelude::*;
use vstd::slice::slice_to_vec;
use vstd::string::StringExecFns;
use crate::digest::{append_decimal, append_hex2, append_hex4, decimal_text, hex2, hex4};
use crate::template::{extension_views, Extension, ExtensionModel, HelloTemplate, TemplateModel};

verus! {

/// One key share of a uTLS specification.
pub struct UtlsKeyShare {
    pub group: u16,
    pub data: Vec<u8>,
}

/// One extension of a uTLS specification, under the name of its uTLS type.
pub enum UtlsExt {
    SNIExtension { server_name: String },
    SupportedCurvesExtension { curves: Vec<u16> },
    SupportedPointsExtension { supported_points: Vec<u8> },
    SignatureAlgorithmsExtension { algs: Vec<u16> },
    ALPNExtension { alpn_protocols: Vec<String> },
    KeyShareExtension { key_shares: Vec<UtlsKeyShare> },
    PSKKeyExchangeModesExtension { modes: Vec<u8> },
    SupportedVersionsExtension { versions: Vec<u16> },
    ApplicationSettingsExtension { supported_protocols: Vec<String>, data: Vec<u8> },
    GenericExtension { id: u16, data: Vec<u8> },
    GREASEExtension,
    /// The padding length, as the Go function that uTLS asks for.
    UtlsPaddingExtension { get_padding_len: String },
}

/// A uTLS specification.
pub struct UtlsJson {
    pub tls_vers_min: u16,
    pub tls_vers_max: u16,
    pub cipher_suites: Vec<u16>,
    pub extensions: Vec<UtlsExt>,
}

/// A uTLS extension as plain values.
pub ghost enum UtlsExtModel {
    SNIExtension { server_name: Seq<char> },
    SupportedCurvesExtension { curves: Seq<u16> },
    SupportedPointsExtension { supported_points: Seq<u8> },
    SignatureAlgorithmsExtension { algs: Seq<u16> },
    ALPNExtension { alpn_protocols: Seq<Seq<char>> },
    KeyShareExtension { key_shares: Seq<(u16, Seq<u8>)> },
    PSKKeyExchangeModesExtension { modes: Seq<u8> },
    SupportedVersionsExtension { versions: Seq<u16> },
    ApplicationSettingsExtension { supported_protocols: Seq<Seq<char>>, data: Seq<u8> },
    GenericExtension { id: u16, data: Seq<u8> },
    GREASEExtension,
    UtlsPaddingExtension { get_padding_len: Seq<char> },
}

/// A uTLS specification as plain values.
pub ghost struct UtlsJsonModel {
    pub tls_vers_min: u16,
    pub tls_vers_max: u16,
    pub cipher_suites: Seq<u16>,
    pub extensions: Seq<UtlsExtModel>,
}

/// The key shares as pairs of group and key.
pub open spec fn key_share_views(shares: Seq<UtlsKeyShare>) -> Seq<(u16, Seq<u8>)> {
    Seq::new(shares.len(), |i: int| (shares[i].group, shares[i].data@))
}

impl View for UtlsExt {
    type V = UtlsExtModel;

    open spec fn view(&self) -> UtlsExtModel {
        match *self {
            UtlsExt::SNIExtension { server_name } => UtlsExtModel::SNIExtension {
                server_name: server_name@,
            },
            UtlsExt::SupportedCurvesExtension { curves } => UtlsExtModel::SupportedCurvesExtension {
                curves: curves@,
            },
            UtlsExt::SupportedPointsExtension { supported_points } => {
                UtlsExtModel::SupportedPointsExtension { supported_points: supported_points@ }
            },
            UtlsExt::SignatureAlgorithmsExtension { algs } => {
                UtlsExtModel::SignatureAlgorithmsExtension { algs: algs@ }
            },
            UtlsExt::ALPNExtension { alpn_protocols } => UtlsExtModel::ALPNExtension {
                alpn_protocols: alpn_protocols.deep_view(),
            },
            UtlsExt::KeyShareExtension { key_shares } => UtlsExtModel::KeyShareExtension {
                key_shares: key_share_views(key_shares@),
            },
            UtlsExt::PSKKeyExchangeModesExtension { modes } => {
                UtlsExtModel::PSKKeyExchangeModesExtension { modes: modes@ }
            },
            UtlsExt::SupportedVersionsExtension { versions } => {
                UtlsExtModel::SupportedVersionsExtension { versions: versions@ }
            },
            UtlsExt::ApplicationSettingsExtension { supported_protocols, data } => {
                UtlsExtModel::ApplicationSettingsExtension {
                    supported_protocols: supported_protocols.deep_view(),
                    data: data@,
                }
            },
            UtlsExt::GenericExtension { id, data } => UtlsExtModel::GenericExtension {
                id,
                data: data@,
            },
            UtlsExt::GREASEExtension => UtlsExtModel::GREASEExtension,
            UtlsExt::UtlsPaddingExtension { get_padding_len } => {
                UtlsExtModel::UtlsPaddingExtension { get_padding_len: get_padding_len@ }
            },
        }
    }
}

/// The views of a list of uTLS extensions, in order.
pub open spec fn utls_views(exts: Seq<UtlsExt>) -> Seq<UtlsExtModel> {
    Seq::new(exts.len(), |i: int| exts[i]@)
}

impl View for UtlsJson {
    type V = UtlsJsonModel;

    open spec fn view(&self) -> UtlsJsonModel {
        UtlsJsonModel {
            tls_vers_min: self.tls_vers_min,
            tls_vers_max: self.tls_vers_max,
            cipher_suites: self.cipher_suites@,
            extensions: utls_views(self.extensions@),
        }
    }
}

/// The Go function that pads to `len` bytes.
pub open spec fn padding_function(len: nat) -> Seq<char> {
    "func(clientHelloLen int) int { return "@ + decimal_text(len) + " }"@
}

/// The uTLS extension that stands for an extension of the template. The
/// ECH stub and unknown extensions become generic extensions.
pub open spec fn utls_extension(ext: ExtensionModel) -> UtlsExtModel {
    match ext {
        ExtensionModel::ServerName { host } => UtlsExtModel::SNIExtension { server_name: host },
        ExtensionModel::SupportedVersions { versions } => UtlsExtModel::SupportedVersionsExtension {
            versions,
        },
        ExtensionModel::SupportedGroups { groups, .. } => UtlsExtModel::SupportedCurvesExtension {
            curves: groups,
        },
        ExtensionModel::SignatureAlgorithms { algs } => UtlsExtModel::SignatureAlgorithmsExtension {
            algs,
        },
        ExtensionModel::KeyShare { shares } => UtlsExtModel::KeyShareExtension {
            key_shares: shares,
        },
        ExtensionModel::Alpn { protocols } => UtlsExtModel::ALPNExtension {
            alpn_protocols: protocols,
        },
        ExtensionModel::Padding { len } => UtlsExtModel::UtlsPaddingExtension {
            get_padding_len: padding_function(len),
        },
        ExtensionModel::EchOuterStub { config_id } => UtlsExtModel::GenericExtension {
            id: 0xfe0d,
            data: config_id,
        },
        ExtensionModel::ApplicationSettings { protocols, data } => {
            UtlsExtModel::ApplicationSettingsExtension { supported_protocols: protocols, data }
        },
        ExtensionModel::PskKeyExchangeModes { modes } => {
            UtlsExtModel::PSKKeyExchangeModesExtension { modes }
        },
        ExtensionModel::Unknown { typ, bytes } => UtlsExtModel::GenericExtension {
            id: typ,
            data: bytes,
        },
    }
}

/// The uTLS specification of a template: versions `0x0303` to `0x0304`,
/// the cipher suites, and one uTLS extension for each extension, all in
/// the order of the template.
pub open spec fn utls_json(t: TemplateModel) -> UtlsJsonModel {
    UtlsJsonModel {
        tls_vers_min: 0x0303,
        tls_vers_max: 0x0304,
        cipher_suites: t.cipher_suites,
        extensions: Seq::new(t.extensions.len(), |i: int| utls_extension(t.extensions[i])),
    }
}

/// The lines of the cipher suites in the Go snippet.
pub open spec fn go_suites(suites: Seq<u16>) -> Seq<char>
    decreases suites.len(),
{
    if suites.len() == 0 {
        Seq::empty()
    } else {
        go_suites(suites.drop_last()) + "    0x"@ + hex4(suites.last() as int) + ",\n"@
    }
}

/// The lines of the protocol names in the Go snippet.
pub open spec fn go_names(names: Seq<Seq<char>>) -> Seq<char>
    decreases names.len(),
{
    if names.len() == 0 {
        Seq::empty()
    } else {
        go_names(names.drop_last()) + "      \""@ + names.last() + "\",\n"@
    }
}

/// The bytes of a generic extension in the Go snippet.
pub open spec fn go_bytes(bytes: Seq<u8>) -> Seq<char>
    decreases bytes.len(),
{
    if bytes.len() == 0 {
        Seq::empty()
    } else {
        go_bytes(bytes.drop_last()) + "0x"@ + hex2(bytes.last() as int) + ", "@
    }
}

/// The lines of one extension in the Go snippet. Server name, ALPN and
/// unknown extensions are written out; the list of bytes of an unknown
/// extension ends with one more `0x00`. Every other extension is left out.
pub open spec fn go_extension(ext: ExtensionModel) -> Seq<char> {
    match ext {
        ExtensionModel::ServerName { host } => "    &utls.SNIExtension{ServerName: \""@ + host
            + "\"},\n"@,
        ExtensionModel::Alpn { protocols } => "    &utls.ALPNExtension{AlpnProtocols: []string{\n"@
            + go_names(protocols) + "    }},\n"@,
        ExtensionModel::Unknown { typ, bytes } => "    &utls.GenericExtension{Id: 0x"@ + hex4(
            typ as int,
        ) + ", Data: []byte{"@ + go_bytes(bytes) + "0x00}},\n"@,
        _ => Seq::empty(),
    }
}

/// The lines of all extensions in the Go snippet, in order.
pub open spec fn go_extensions(exts: Seq<ExtensionModel>) -> Seq<char>
    decreases exts.len(),
{
    if exts.len() == 0 {
        Seq::empty()
    } else {
        go_extensions(exts.drop_last()) + go_extension(exts.last())
    }
}

/// The opening lines of the Go snippet, up to the cipher suites.
pub open spec fn go_head() -> Seq<char> {
    "package templates\n\n"@ + "import \"github.com/refraction-networking/utls\"\n\n"@
        + "var Spec = &utls.ClientHelloSpec{\n"@ + "  TLSVersMin: 0x0303, TLSVersMax: 0x0304,\n"@
        + "  CipherSuites: []uint16{\n"@
}

/// The Go snippet of a template.
pub open spec fn go_text(t: TemplateModel) -> Seq<char> {
    go_head() + go_suites(t.cipher_suites) + "  },\n"@ + "  Extensions: []utls.TLSExtension{\n"@
        + go_extensions(t.extensions) + "  },\n"@ + "}\n"@
}

/// A copy of a list of names.
fn copy_names(names: &Vec<String>) -> (out: Vec<String>)
    ensures
        out.deep_view() == names.deep_view(),
{
    let mut out: Vec<String> = Vec::new();
    let mut i: usize = 0;
    while i < names.len()
        invariant
            i <= names.len(),
            out@.len() == i,
            forall|j: int| 0 <= j < i ==> out@[j]@ == names@[j]@,
        decreases names.len() - i,
    {
        out.push(names[i].clone());
        i += 1;
    }
    assert(out.deep_view() =~= names.deep_view());
    out
}

/// The key shares of a template as uTLS key shares.
fn copy_shares(shares: &Vec<(u16, Vec<u8>)>) -> (out: Vec<UtlsKeyShare>)
    ensures
        key_share_views(out@) == shares.deep_view(),
{
    let mut out: Vec<UtlsKeyShare> = Vec::new();
    let mut i: usize = 0;
    while i < shares.len()
        invariant
            i <= shares.len(),
            out@.len() == i,
            forall|j: int|
                0 <= j < i ==> out@[j].group == shares@[j].0 && out@[j].data@ == shares@[j].1@,
        decreases shares.len() - i,
    {
        out.push(UtlsKeyShare { group: shares[i].0, data: slice_to_vec(shares[i].1.as_slice()) });
        i += 1;
    }
    assert(key_share_views(out@) =~~= shares.deep_view());
    out
}

/// The uTLS extension that stands for one extension of the template.
fn to_utls_extension(ext: &Extension) -> (out: UtlsExt)
    ensures
        out@ == utls_extension(ext@),
{
    match ext {
        Extension::ServerName { host } => UtlsExt::SNIExtension { server_name: host.clone() },
        Extension::SupportedVersions { versions } => UtlsExt::SupportedVersionsExtension {
            versions: slice_to_vec(versions.as_slice()),
        },
        Extension::SupportedGroups { groups, .. } => UtlsExt::SupportedCurvesExtension {
            curves: slice_to_vec(groups.as_slice()),
        },
        Extension::SignatureAlgorithms { algs } => UtlsExt::SignatureAlgorithmsExtension {
            algs: slice_to_vec(algs.as_slice()),
        },
        Extension::KeyShare { shares } => UtlsExt::KeyShareExtension {
            key_shares: copy_shares(shares),
        },
        Extension::Alpn { protocols } => UtlsExt::ALPNExtension {
            alpn_protocols: copy_names(protocols),
        },
        Extension::Padding { len } => {
            let mut text: String = String::from_str("func(clientHelloLen int) int { return ");
            append_decimal(&mut text, *len as u64);
            text.append(" }");
            UtlsExt::UtlsPaddingExtension { get_padding_len: text }
        },
        Extension::EchOuterStub { config_id } => UtlsExt::GenericExtension {
            id: 0xfe0d,
            data: slice_to_vec(config_id.as_slice()),
        },
        Extension::ApplicationSettings { protocols, data } => {
            UtlsExt::ApplicationSettingsExtension {
                supported_protocols: copy_names(protocols),
                data: slice_to_vec(data.as_slice()),
            }
        },
        Extension::PskKeyExchangeModes { modes } => UtlsExt::PSKKeyExchangeModesExtension {
            modes: slice_to_vec(modes.as_slice()),
        },
        Extension::Unknown { typ, bytes } => UtlsExt::GenericExtension {
            id: *typ,
            data: slice_to_vec(bytes.as_slice()),
        },
    }
}

/// Writes the template as a uTLS specification.
pub fn export_utls_json(t: &HelloTemplate) -> (out: UtlsJson)
    ensures
        out@ == utls_json(t@),
{
    let mut extensions: Vec<UtlsExt> = Vec::new();
    let mut i: usize = 0;
    while i < t.extensions.len()
        invariant
            i <= t.extensions.len(),
            extensions@.len() == i,
            forall|j: int| 0 <= j < i ==> extensions@[j]@ == utls_extension(t.extensions@[j]@),
        decreases t.extensions.len() - i,
    {
        extensions.push(to_utls_extension(&t.extensions[i]));
        i += 1;
    }
    let out = UtlsJson {
        tls_vers_min: 0x0303,
        tls_vers_max: 0x0304,
        cipher_suites: slice_to_vec(t.cipher_suites.as_slice()),
        extensions,
    };
    assert(out@.extensions =~= utls_json(t@).extensions);
    out
}

/// Appends the lines of one extension to the Go snippet.
fn append_go_extension(go: &mut String, ext: &Extension)
    ensures
        final(go)@ == old(go)@ + go_extension(ext@),
{
    match ext {
        Extension::ServerName { host } => {
            go.append("    &utls.SNIExtension{ServerName: \"");
            go.append(host.as_str());
            go.append("\"},\n");
            assert(go@ =~= old(go)@ + go_extension(ext@));
        },
        Extension::Alpn { protocols } => {
            go.append("    &utls.ALPNExtension{AlpnProtocols: []string{\n");
            let ghost start = go@;
            let ghost all = protocols.deep_view();
            let mut i: usize = 0;
            while i < protocols.len()
                invariant
                    i <= protocols.len(),
                    all == protocols.deep_view(),
                    all.len() == protocols.len(),
                    go@ == start + go_names(all.take(i as int)),
                decreases protocols.len() - i,
            {
                go.append("      \"");
                go.append(protocols[i].as_str());
                go.append("\",\n");
                proof {
                    let next = all.take(i + 1);
                    assert(next.drop_last() =~= all.take(i as int));
                    assert(next.last() == protocols[i as int]@);
                    assert(go@ =~= start + go_names(next));
                }
                i += 1;
            }
            assert(all.take(i as int) =~= all);
            go.append("    }},\n");
            assert(go@ =~= old(go)@ + go_extension(ext@));
        },
        Extension::Unknown { typ, bytes } => {
            go.append("    &utls.GenericExtension{Id: 0x");
            append_hex4(go, *typ);
            go.append(", Data: []byte{");
            let ghost start = go@;
            let mut i: usize = 0;
            while i < bytes.len()
                invariant
                    i <= bytes.len(),
                    go@ == start + go_bytes(bytes@.take(i as int)),
                decreases bytes.len() - i,
            {
                go.append("0x");
                append_hex2(go, bytes[i]);
                go.append(", ");
                proof {
                    let next = bytes@.take(i + 1);
                    assert(next.drop_last() =~= bytes@.take(i as int));
                    assert(go@ =~= start + go_bytes(next));
                }
                i += 1;
            }
            assert(bytes@.take(i as int) =~= bytes@);
            go.append("0x00}},\n");
            assert(go@ =~= old(go)@ + go_extension(ext@));
        },
        _ => {
            assert(go@ =~= old(go)@ + go_extension(ext@));
        },
    }
}

/// Writes the template as a snippet of Go source that declares the
/// variable `Spec`, a uTLS handshake specification. Cipher suites keep
/// their order; of the extensions, server name, ALPN and unknown ones are
/// written out, in the order of the template.
pub fn export_utls_go(t: &HelloTemplate) -> (go: String)
    ensures
        go@ == go_text(t@),
{
    let mut go: String = String::new();
    go.append("package templates\n\n");
    go.append("import \"github.com/refraction-networking/utls\"\n\n");
    go.append("var Spec = &utls.ClientHelloSpec{\n");
    go.append("  TLSVersMin: 0x0303, TLSVersMax: 0x0304,\n");
    go.append("  CipherSuites: []uint16{\n");
    assert(go@ =~= go_head());
    let mut i: usize = 0;
    while i < t.cipher_suites.len()
        invariant
            i <= t.cipher_suites.len(),
            go@ == go_head() + go_suites(t.cipher_suites@.take(i as int)),
        decreases t.cipher_suites.len() - i,
    {
        go.append("    0x");
        append_hex4(&mut go, t.cipher_suites[i]);
        go.append(",\n");
        proof {
            let next = t.cipher_suites@.take(i + 1);
            assert(next.drop_last() =~= t.cipher_suites@.take(i as int));
            assert(go@ =~= go_head() + go_suites(next));
        }
        i += 1;
    }
    assert(t.cipher_suites@.take(i as int) =~= t.cipher_suites@);
    go.append("  },\n");
    go.append("  Extensions: []utls.TLSExtension{\n");
    let ghost start = go@;
    let ghost all = extension_views(t.extensions@);
    let mut k: usize = 0;
    while k < t.extensions.len()
        invariant
            k <= t.extensions.len(),
            all == extension_views(t.extensions@),
            go@ == start + go_extensions(all.take(k as int)),
        decreases t.extensions.len() - k,
    {
        append_go_extension(&mut go, &t.extensions[k]);
        proof {
            let next = all.take(k + 1);
            assert(next.drop_last() =~= all.take(k as int));
            assert(next.last() == t.extensions[k as int]@);
            assert(go@ =~= start + go_extensions(next));
        }
        k += 1;
    }
    assert(all.take(k as int) =~= all);
    go.append("  },\n");
    go.append("}\n");
    assert(go@ =~= go_text(t@));
    go
}

} // verus!
