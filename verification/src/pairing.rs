//! What a client needs to find the host and to be let in, as a QR code, as text and over mDNS.
use vstd::prelude::*;
use vstd::utf8::*;

use crate::text;

verus! {

/// The type of the service under which the host is found.
pub const SERVICE_TYPE: &'static str = "_palmtop._tcp.local.";

// ---- QR codes ----

/// The errors of the QR encoder.
#[verifier::external_type_specification]
#[verifier::external_body]
pub struct ExQrError(qrcode::types::QrError);

/// The QR code of some bytes, drawn with half blocks for a terminal, with or without a quiet
/// zone; nothing where the bytes do not fit into one.
pub uninterp spec fn qr_blocks(data: Seq<u8>, quiet_zone: bool) -> Option<Seq<char>>;

/// The QR code of some bytes as an SVG picture of at least this width and height, with or without a
/// quiet zone; nothing where the bytes do not fit into one.
pub uninterp spec fn qr_svg(data: Seq<u8>, size: u32, quiet_zone: bool) -> Option<Seq<char>>;

/// `QrCode::new`, and then its rendering as `unicode::Dense1x2`: both depend on the bytes and on
/// whether there is a quiet zone alone, and they fail where the bytes do not fit into a code.
#[verifier::external_body]
fn draw_blocks(data: &[u8], quiet_zone: bool) -> (res: Result<String, qrcode::types::QrError>)
    ensures
        match res {
            Ok(s) => qr_blocks(data@, quiet_zone) == Some(s@),
            Err(_) => qr_blocks(data@, quiet_zone) is None,
        },
{
    let code = qrcode::QrCode::new(data)?;
    Ok(code.render::<qrcode::render::unicode::Dense1x2>().quiet_zone(quiet_zone).build())
}

/// `QrCode::new`, and then its rendering as `svg::Color` with these least dimensions: both depend on
/// the bytes, the dimensions and whether there is a quiet zone alone, and they fail where the bytes do not fit into a code. The
/// dimensions are rounded up to whole modules, which must not overflow.
#[verifier::external_body]
fn draw_svg(data: &[u8], size: u32, quiet_zone: bool) -> (res: Result<String, qrcode::types::QrError>)
    requires
        size <= 0x1_0000,
    ensures
        match res {
            Ok(s) => qr_svg(data@, size, quiet_zone) == Some(s@),
            Err(_) => qr_svg(data@, size, quiet_zone) is None,
        },
{
    let code = qrcode::QrCode::new(data)?;
    let mut renderer = code.render::<qrcode::render::svg::Color>();
    Ok(renderer.min_dimensions(size, size).quiet_zone(quiet_zone).build())
}

// ---- the connection ----

/// What a client needs to connect, as one line of text.
pub open spec fn uri_text(host: Seq<char>, port: u16, token: Seq<char>, pubkey: Seq<char>) -> Seq<
    char,
> {
    "palmtop://"@ + host + ":"@ + text::decimal(port as nat) + "/"@ + token + "?pubkey="@ + pubkey
}

pub fn uri(host: &str, port: u16, token: &str, pubkey: &str) -> (res: String)
    ensures
        res@ == uri_text(host@, port, token@, pubkey@),
{
    let mut out = "palmtop://".to_owned();
    out.append(host);
    out.append(":");
    text::push_decimal(&mut out, port as u64);
    out.append("/");
    out.append(token);
    out.append("?pubkey=");
    out.append(pubkey);
    out
}

/// Why the connection could not be shown: it does not fit into a QR code.
#[derive(Debug, Clone, Copy, PartialEq, Eq, Structural)]
pub struct TooLong;

/// The width and height of the picture that is written to a file.
pub const SVG_SIZE: u32 = 720;

/// The QR code of a connection as an SVG picture.
pub fn connect_svg(host: &str, port: u16, token: &str, pubkey: &str) -> (res: Result<String, TooLong>)
    ensures
        qr_svg(encode_utf8(uri_text(host@, port, token@, pubkey@)), SVG_SIZE, true) == (match res {
            Ok(s) => Some(s@),
            Err(_) => None,
        }),
{
    let uri = uri(host, port, token, pubkey);
    match draw_svg(uri.as_str().as_bytes(), SVG_SIZE, true) {
        Ok(s) => Ok(s),
        Err(_) => Err(TooLong),
    }
}

/// What is said of the file with the picture: where it is, or why it is not.
pub open spec fn file_note(file: Result<Seq<char>, Seq<char>>) -> Seq<char> {
    match file {
        Ok(path) => "  or open this, which scans far more reliably:\n    "@ + path + "\n"@,
        Err(e) => "  (couldn't write the scannable QR file: "@ + e + ")\n"@,
    }
}

/// The connection as it is printed, below its QR code.
pub open spec fn connect_text(
    blocks: Seq<char>,
    file: Result<Seq<char>, Seq<char>>,
    host: Seq<char>,
    port: u16,
    token: Seq<char>,
    pubkey: Seq<char>,
) -> Seq<char> {
    blocks + "\nScan with the Palmtop app,\n"@ + file_note(file)
        + "or enter manually:\n  host:   "@ + host + "\n  port:   "@ + text::decimal(port as nat)
        + "\n  token:  "@ + token + "\n  pubkey: "@ + pubkey + "\n"@
}

/// The text or the reason in a result.
pub open spec fn file_view(file: Result<String, String>) -> Result<Seq<char>, Seq<char>> {
    match file {
        Ok(p) => Ok(p@),
        Err(e) => Err(e@),
    }
}

/// The connection as it is printed, below a QR code that has been drawn.
pub fn connect_info(
    blocks: &str,
    file: &Result<String, String>,
    host: &str,
    port: u16,
    token: &str,
    pubkey: &str,
) -> (res: String)
    ensures
        res@ == connect_text(blocks@, file_view(*file), host@, port, token@, pubkey@),
{
    let mut out = blocks.to_owned();
    out.append("\nScan with the Palmtop app,\n");
    let ghost head = out@;
    match file {
        Ok(path) => {
            out.append("  or open this, which scans far more reliably:\n    ");
            out.append(path.as_str());
            out.append("\n");
        },
        Err(e) => {
            out.append("  (couldn't write the scannable QR file: ");
            out.append(e.as_str());
            out.append(")\n");
        },
    }
    assert(out@ =~= head + file_note(file_view(*file)));
    out.append("or enter manually:\n  host:   ");
    out.append(host);
    out.append("\n  port:   ");
    text::push_decimal(&mut out, port as u64);
    out.append("\n  token:  ");
    out.append(token);
    out.append("\n  pubkey: ");
    out.append(pubkey);
    out.append("\n");
    out
}

/// The connection as it is printed: a QR code, where the file with the picture of it is, and the
/// values for entering them by hand.
pub fn render_connect_info(
    host: &str,
    port: u16,
    token: &str,
    noise_pubkey_hex: &str,
    file: &Result<String, String>,
) -> (res: Result<String, TooLong>)
    ensures
        match qr_blocks(encode_utf8(uri_text(host@, port, token@, noise_pubkey_hex@)), true) {
            Some(blocks) => res is Ok && res.unwrap()@ == connect_text(
                blocks,
                file_view(*file),
                host@,
                port,
                token@,
                noise_pubkey_hex@,
            ),
            None => res == Err::<String, TooLong>(TooLong),
        },
{
    let uri = uri(host, port, token, noise_pubkey_hex);
    match draw_blocks(uri.as_str().as_bytes(), true) {
        Ok(blocks) => Ok(
            connect_info(blocks.as_str(), file, host, port, token, noise_pubkey_hex),
        ),
        Err(_) => Err(TooLong),
    }
}

/// The address that a host has moved to, where the detected one is not the one that was shown last.
/// An address that cannot be detected is no move.
pub fn moved_to(shown: &str, detected: Result<String, String>) -> (res: Option<String>)
    ensures
        match detected {
            Ok(ip) => if ip@ == shown@ {
                res is None
            } else {
                res == Some(ip)
            },
            Err(_) => res is None,
        },
{
    match detected {
        Ok(ip) => if text::same(ip.as_str(), shown) {
            None
        } else {
            Some(ip)
        },
        Err(_) => None,
    }
}

// ---- mDNS ----

/// The name of the host: what the environment says, or else what its file says, or else a stand-in.
pub open spec fn host_name(environment: Option<Seq<char>>, file: Option<Seq<char>>) -> Seq<char> {
    match environment {
        Some(n) => n,
        None => match file {
            Some(f) => text::trimmed(f),
            None => "palmtop-host"@,
        },
    }
}

/// What is announced: the name of the instance, that of the host, and the properties.
pub struct Advertisement {
    pub instance: String,
    pub host: String,
    pub protocol_version: String,
    pub pubkey: String,
}

/// What is announced of the host, so that a client finds it and knows its key.
pub fn advertise(
    environment: Option<&str>,
    file: Option<&str>,
    protocol_version: u16,
    noise_pubkey_hex: &str,
) -> (res: Advertisement)
    ensures
        ({
            let name = host_name(
                match environment {
                    Some(n) => Some(n@),
                    None => None,
                },
                match file {
                    Some(f) => Some(f@),
                    None => None,
                },
            );
            &&& res.instance@ == "Palmtop on "@ + name
            &&& res.host@ == name + ".local."@
            &&& res.protocol_version@ == text::decimal(protocol_version as nat)
            &&& res.pubkey@ == noise_pubkey_hex@
        }),
{
    let name = match environment {
        Some(n) => n.to_owned(),
        None => match file {
            Some(f) => text::trim(f),
            None => "palmtop-host".to_owned(),
        },
    };
    Advertisement {
        instance: "Palmtop on ".to_owned().concat(name.as_str()),
        host: name.concat(".local."),
        protocol_version: text::decimal_of(protocol_version as u64),
        pubkey: noise_pubkey_hex.to_owned(),
    }
}

// ---- laws ----

/// What a client needs stands in one line: the address, the port, the token and the key, in this order
/// and with these signs between them.
pub proof fn the_line_has_address_port_token_and_key(
    host: Seq<char>,
    port: u16,
    token: Seq<char>,
    pubkey: Seq<char>,
)
    ensures
        uri_text(host, port, token, pubkey) == "palmtop://"@ + host + ":"@ + text::decimal(
            port as nat,
        ) + "/"@ + token + "?pubkey="@ + pubkey,
        SVG_SIZE == 720,
{
}

/// Below the QR code stands where the picture of it is, or why there is none, and then each value on a
/// line of its own.
pub proof fn each_value_has_its_line(
    blocks: Seq<char>,
    path: Seq<char>,
    error: Seq<char>,
    host: Seq<char>,
    port: u16,
    token: Seq<char>,
    pubkey: Seq<char>,
)
    ensures
        ({
            let values = "or enter manually:\n  host:   "@ + host + "\n  port:   "@ + text::decimal(
                port as nat,
            ) + "\n  token:  "@ + token + "\n  pubkey: "@ + pubkey + "\n"@;
            &&& connect_text(blocks, Ok(path), host, port, token, pubkey) == blocks
                + "\nScan with the Palmtop app,\n"@ + (
            "  or open this, which scans far more reliably:\n    "@ + path + "\n"@) + values
            &&& connect_text(blocks, Err(error), host, port, token, pubkey) == blocks
                + "\nScan with the Palmtop app,\n"@ + (
            "  (couldn't write the scannable QR file: "@ + error + ")\n"@) + values
        }),
{
    let values = "or enter manually:\n  host:   "@ + host + "\n  port:   "@ + text::decimal(
        port as nat,
    ) + "\n  token:  "@ + token + "\n  pubkey: "@ + pubkey + "\n"@;
    let head = blocks + "\nScan with the Palmtop app,\n"@;
    let a = "  or open this, which scans far more reliably:\n    "@ + path + "\n"@;
    let b = "  (couldn't write the scannable QR file: "@ + error + ")\n"@;
    assert(connect_text(blocks, Ok(path), host, port, token, pubkey) =~= head + a + values);
    assert(connect_text(blocks, Err(error), host, port, token, pubkey) =~= head + b + values);
}

/// A host is found under its kind of service. It has the name that the environment gives it; else the
/// one in its file, without white space around it; else a stand-in.
pub proof fn the_environment_names_the_host(
    named: Seq<char>,
    file: Option<Seq<char>>,
    written: Seq<char>,
)
    ensures
        SERVICE_TYPE@ == "_palmtop._tcp.local."@,
        host_name(Some(named), file) == named,
        host_name(None, Some(written)) == text::trimmed(written),
        host_name(None, None) == "palmtop-host"@,
{
}

/// A host has moved where its address was detected and is not the one that was shown.
pub proof fn a_move_is_a_new_address(
    shown: &str,
    detected: Result<String, String>,
    res: Option<String>,
)
    requires
        call_ensures(moved_to, (shown, detected), res),
    ensures
        res is Some <==> (detected matches Ok(ip) && ip@ != shown@),
        res matches Some(ip) ==> detected == Ok::<String, String>(ip),
{
}

/// What is announced is named after the host, and says its version and its key.
pub proof fn the_host_is_announced_by_its_name(
    environment: Option<&str>,
    file: Option<&str>,
    protocol_version: u16,
    pubkey: &str,
    name: &str,
    res: Advertisement,
)
    requires
        call_ensures(advertise, (environment, file, protocol_version, pubkey), res),
        environment matches Some(n) && n@ == name@,
    ensures
        res.instance@ == "Palmtop on "@ + name@,
        res.host@ == name@ + ".local."@,
        res.protocol_version@ == text::decimal(protocol_version as nat),
        res.pubkey@ == pubkey@,
{
}

} // verus!
