//! The JSON document of a status reply, built as bytes.
use vstd::prelude::*;
use vstd::utf8::*;

verus! {

/// A lowercase hexadecimal digit.
pub open spec fn hex_digit(n: u32) -> char {
    if n < 10 {
        (n + 48) as char
    } else {
        (n + 87) as char
    }
}

/// How one character stands inside a JSON string: the quote and the
/// backslash escaped, the control characters as their short escape or as
/// `\u00XX`, every other character as itself.
pub open spec fn json_escape(c: char) -> Seq<char> {
    let n = c as u32;
    if c == '"' {
        seq!['\\', '"']
    } else if c == '\\' {
        seq!['\\', '\\']
    } else if n == 0x08 {
        seq!['\\', 'b']
    } else if n == 0x09 {
        seq!['\\', 't']
    } else if n == 0x0a {
        seq!['\\', 'n']
    } else if n == 0x0c {
        seq!['\\', 'f']
    } else if n == 0x0d {
        seq!['\\', 'r']
    } else if n < 0x20 {
        seq!['\\', 'u', '0', '0', hex_digit(n / 16), hex_digit(n % 16)]
    } else {
        seq![c]
    }
}

/// The escaped characters of a string, in order.
pub open spec fn json_chars(s: Seq<char>) -> Seq<char>
    decreases s.len(),
{
    if s.len() == 0 {
        Seq::empty()
    } else {
        json_chars(s.drop_last()) + json_escape(s.last())
    }
}

/// The JSON text of a string value: its escaped characters between quotes.
pub open spec fn json_string(s: Seq<char>) -> Seq<char> {
    seq!['"'] + json_chars(s) + seq!['"']
}

/// Relies on `serde_json::Value::String` and its compact `Display`: the
/// string between quotes, each character escaped by serde_json's table.
#[verifier::external_body]
fn json_quote(s: &str) -> (r: String)
    ensures
        r@ == json_string(s@),
{
    serde_json::Value::String(s.to_string()).to_string()
}

/// The ASCII decimal digits of `n`, without leading zeros.
pub open spec fn decimal(n: nat) -> Seq<u8>
    decreases n,
{
    if n < 10 {
        seq![(n + 48) as u8]
    } else {
        decimal(n / 10).push((n % 10 + 48) as u8)
    }
}

/// Appends the decimal digits of `n`.
pub fn write_decimal(n: u32, out: &mut Vec<u8>)
    ensures
        final(out)@ == old(out)@ + decimal(n as nat),
    decreases n,
{
    if n < 10 {
        out.push((n + 48) as u8);
        assert(final(out)@ =~= old(out)@ + decimal(n as nat)) by {
            assert(out@ =~= old(out)@ + decimal(n as nat));
        }
    } else {
        write_decimal(n / 10, out);
        out.push((n % 10 + 48) as u8);
        assert(out@ =~= old(out)@ + decimal(n as nat));
    }
}

/// Appends the bytes of `s`.
pub fn append_bytes(s: &[u8], out: &mut Vec<u8>)
    ensures
        final(out)@ == old(out)@ + s@,
{
    let mut i: usize = 0;
    let ghost start = out@;
    while i < s.len()
        invariant
            i <= s@.len(),
            out@ == start + s@.take(i as int),
        decreases s@.len() - i,
    {
        out.push(s[i]);
        i = i + 1;
        assert(out@ =~= start + s@.take(i as int));
    }
    assert(s@.take(s@.len() as int) =~= s@);
}

/// The status document around already-quoted JSON strings: `{"version":
/// {"name":..,"protocol":..},"players":{"max":..,"online":..},
/// "description":{"text":..},"favicon":..,"enforcesSecureChat":false}`.
pub open spec fn status_document(
    name_json: Seq<u8>,
    version_protocol: u32,
    max_players: u32,
    online_players: u32,
    description_json: Seq<u8>,
    favicon_json: Seq<u8>,
) -> Seq<u8> {
    encode_utf8("{\"version\":{\"name\":"@) + name_json + encode_utf8(",\"protocol\":"@) + decimal(
        version_protocol as nat,
    ) + encode_utf8("},\"players\":{\"max\":"@) + decimal(max_players as nat) + encode_utf8(
        ",\"online\":"@,
    ) + decimal(online_players as nat) + encode_utf8("},\"description\":{\"text\":"@)
        + description_json + encode_utf8("},\"favicon\":"@) + favicon_json + encode_utf8(
        ",\"enforcesSecureChat\":false}"@,
    )
}

/// The status document of the given fields, in UTF-8.
pub open spec fn status_json(
    version_name: Seq<char>,
    version_protocol: u32,
    max_players: u32,
    online_players: u32,
    description: Seq<char>,
    favicon: Seq<char>,
) -> Seq<u8> {
    status_document(
        encode_utf8(json_string(version_name)),
        version_protocol,
        max_players,
        online_players,
        encode_utf8(json_string(description)),
        encode_utf8(json_string(favicon)),
    )
}

/// Lays out the status document around the JSON texts of its strings.
pub fn assemble_status_json(
    name_json: &[u8],
    version_protocol: u32,
    max_players: u32,
    online_players: u32,
    description_json: &[u8],
    favicon_json: &[u8],
) -> (r: Vec<u8>)
    ensures
        r@ == status_document(
            name_json@,
            version_protocol,
            max_players,
            online_players,
            description_json@,
            favicon_json@,
        ),
{
    let mut out: Vec<u8> = Vec::new();
    append_bytes("{\"version\":{\"name\":".as_bytes(), &mut out);
    append_bytes(name_json, &mut out);
    append_bytes(",\"protocol\":".as_bytes(), &mut out);
    write_decimal(version_protocol, &mut out);
    append_bytes("},\"players\":{\"max\":".as_bytes(), &mut out);
    write_decimal(max_players, &mut out);
    append_bytes(",\"online\":".as_bytes(), &mut out);
    write_decimal(online_players, &mut out);
    append_bytes("},\"description\":{\"text\":".as_bytes(), &mut out);
    append_bytes(description_json, &mut out);
    append_bytes("},\"favicon\":".as_bytes(), &mut out);
    append_bytes(favicon_json, &mut out);
    append_bytes(",\"enforcesSecureChat\":false}".as_bytes(), &mut out);
    assert(out@ =~= status_document(
        name_json@,
        version_protocol,
        max_players,
        online_players,
        description_json@,
        favicon_json@,
    ));
    out
}

/// Builds the status document, quoting its strings as JSON.
pub fn build_status_json(
    version_name: &str,
    version_protocol: u32,
    max_players: u32,
    online_players: u32,
    description: &str,
    favicon: &str,
) -> (r: Vec<u8>)
    ensures
        r@ == status_json(
            version_name@,
            version_protocol,
            max_players,
            online_players,
            description@,
            favicon@,
        ),
{
    let name_json = json_quote(version_name);
    let description_json = json_quote(description);
    let favicon_json = json_quote(favicon);
    assemble_status_json(
        name_json.as_str().as_bytes(),
        version_protocol,
        max_players,
        online_players,
        description_json.as_str().as_bytes(),
        favicon_json.as_str().as_bytes(),
    )
}

} // verus!
