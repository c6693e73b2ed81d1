//! Assembly of the upload payload and the pieces of the HTTP exchange
//! that are pure computation: the JSON body, the request head, and the
//! reading of the status line.

use vstd::prelude::*;

use crate::format::colon_hex;
use crate::format::fmt_bytes_colon;
use crate::format::hex_digit;
use crate::format::hex_digit_of;
use crate::format::lemma_hex_digit_ascii;
use crate::heapless_specs::str2048_chars;
use crate::heapless_specs::str2048_new;
use crate::heapless_specs::str2048_push;
use crate::heapless_specs::str2048_push_str;
use crate::heapless_specs::str64_as_str;
use crate::storage::EncounterLog;
use vstd::utf8::is_ascii_chars;

verus! {

/// The upload payload, assembled at upload time from a snapshot of the
/// store; the store itself is never touched by serialization.
pub struct ApiPayload<'a> {
    /// The reporting device's 6-byte identifier.
    pub device_id: [u8; 6],
    /// The snapshot of sightings to report, oldest first.
    pub encounters: &'a [EncounterLog],
    /// Unix seconds at which the report was assembled; 0 when unknown.
    pub reported_at: u64,
}

/// The decimal text of a number.
pub open spec fn dec_chars(v: u64) -> Seq<char>
    decreases v,
{
    if v < 10 {
        seq![hex_digit(v as u8)]
    } else {
        dec_chars(v / 10).push(hex_digit((v % 10) as u8))
    }
}

/// The decimal text is ASCII and never empty.
pub proof fn lemma_dec_chars_props(v: u64)
    ensures
        is_ascii_chars(dec_chars(v)),
        dec_chars(v).len() >= 1,
    decreases v,
{
    lemma_hex_digit_ascii((v % 10) as u8);
    if v < 10 {
        lemma_hex_digit_ascii(v as u8);
    } else {
        lemma_dec_chars_props(v / 10);
    }
}

/// One encounter as a JSON object: the colon-hex address and the
/// timestamp (signal strength is not reported).
pub open spec fn encounter_json(e: EncounterLog) -> Seq<char> {
    "{\"mac_addr\":\""@ + colon_hex(e.mac_addr@) + "\",\"timestamp\":"@ + dec_chars(e.timestamp)
        + "}"@
}

/// The first `n` encounters as a comma-separated JSON list body.
pub open spec fn encounters_json(es: Seq<EncounterLog>, n: int) -> Seq<char>
    decreases n,
{
    if n <= 0 {
        Seq::empty()
    } else if n == 1 {
        encounter_json(es[0])
    } else {
        encounters_json(es, n - 1) + ","@ + encounter_json(es[n - 1])
    }
}

/// Everything of the payload's JSON text before the encounter list.
pub open spec fn json_head(device_id: Seq<u8>, at: u64) -> Seq<char> {
    "{\"device_id\":\""@ + colon_hex(device_id) + "\",\"reported_at\":"@ + dec_chars(at)
        + ",\"encounters\":["@
}

/// The payload's complete JSON text.
pub open spec fn payload_json(device_id: Seq<u8>, es: Seq<EncounterLog>, at: u64) -> Seq<char> {
    json_head(device_id, at) + encounters_json(es, es.len() as int) + "]}"@
}

/// The encounter-list text from the `i`-th encounter to the end, each
/// entry preceded by its separator when it is not the first.
pub open spec fn encounters_json_from(es: Seq<EncounterLog>, i: int) -> Seq<char>
    decreases es.len() - i,
{
    if i < 0 || i >= es.len() {
        Seq::empty()
    } else if i == 0 {
        encounter_json(es[0]) + encounters_json_from(es, 1)
    } else {
        ","@ + encounter_json(es[i]) + encounters_json_from(es, i + 1)
    }
}

/// The whole encounter-list text splits at any position into the
/// leading text and the tail text.
pub proof fn lemma_encounters_json_split(es: Seq<EncounterLog>, i: int)
    requires
        0 <= i <= es.len(),
    ensures
        encounters_json(es, es.len() as int) == encounters_json(es, i) + encounters_json_from(
            es,
            i,
        ),
    decreases es.len() - i,
{
    if i == es.len() {
        assert(encounters_json(es, i) + encounters_json_from(es, i) =~= encounters_json(es, i));
    } else {
        lemma_encounters_json_split(es, i + 1);
        if i == 0 {
            assert(encounters_json(es, 1) =~= encounters_json(es, 0) + encounter_json(es[0]));
        } else {
            assert(encounters_json(es, i + 1) =~= encounters_json(es, i) + ","@ + encounter_json(
                es[i],
            ));
        }
        assert(encounters_json(es, es.len() as int) =~= encounters_json(es, i)
            + encounters_json_from(es, i));
    }
}

/// A leading block of a concatenation is a prefix of the whole.
proof fn lemma_leading_block(x: Seq<char>, y: Seq<char>, f: Seq<char>)
    requires
        f == x + y,
    ensures
        x == f.subrange(0, x.len() as int),
{
    assert(x =~= f.subrange(0, x.len() as int));
}

/// Append the decimal text of `v` to `s`: all of it when it fits the
/// remaining capacity (then the result is true), else a leading part
/// of it.
fn append_u64(s: &mut heapless::String<2048>, v: u64) -> (r: bool)
    requires
        is_ascii_chars(str2048_chars(*old(s))),
    ensures
        is_ascii_chars(str2048_chars(*final(s))),
        str2048_chars(*old(s)).len() <= 2048 ==> str2048_chars(*final(s)).len() <= 2048,
        str2048_chars(*old(s)).len() + dec_chars(v).len() <= 2048 ==> r,
        r ==> str2048_chars(*final(s)) == str2048_chars(*old(s)) + dec_chars(v),
        !r ==> exists|k: int|
            0 <= k < dec_chars(v).len() && str2048_chars(*final(s)) == str2048_chars(*old(s)) + (
            #[trigger] dec_chars(v).subrange(0, k)),
    decreases v,
{
    proof {
        lemma_dec_chars_props(v);
    }
    if v >= 10 {
        let rec_ok = append_u64(s, v / 10);
        proof {
            lemma_dec_chars_props(v / 10);
            lemma_hex_digit_ascii((v % 10) as u8);
        }
        if !rec_ok {
            proof {
                let k = choose|k: int|
                    0 <= k < dec_chars(v / 10).len() && str2048_chars(*s) == str2048_chars(
                        *old(s),
                    ) + (#[trigger] dec_chars(v / 10).subrange(0, k));
                assert(dec_chars(v / 10).subrange(0, k) =~= dec_chars(v).subrange(0, k));
            }
            return false;
        }
        let d = hex_digit_of((v % 10) as u8);
        let r2 = str2048_push(s, d);
        proof {
            if r2 {
                assert(str2048_chars(*s) =~= str2048_chars(*old(s)) + dec_chars(v));
            } else {
                assert(dec_chars(v).subrange(0, dec_chars(v).len() - 1) =~= dec_chars(v / 10));
                assert(str2048_chars(*s) =~= str2048_chars(*old(s)) + dec_chars(v).subrange(
                    0,
                    dec_chars(v).len() - 1,
                ));
            }
        }
        r2
    } else {
        proof {
            lemma_hex_digit_ascii(v as u8);
        }
        let d = hex_digit_of(v as u8);
        let r2 = str2048_push(s, d);
        proof {
            if r2 {
                assert(str2048_chars(*s) =~= str2048_chars(*old(s)) + dec_chars(v));
            } else {
                assert(str2048_chars(*s) =~= str2048_chars(*old(s)) + dec_chars(v).subrange(0, 0));
            }
        }
        r2
    }
}


/// One encounter's JSON text, preceded by the list separator when it
/// is not the first entry.
pub open spec fn encounter_piece(e: EncounterLog, with_sep: bool) -> Seq<char> {
    (if with_sep {
        ","@
    } else {
        Seq::<char>::empty()
    }) + encounter_json(e)
}

/// Append one encounter's JSON text to `s`: all of it when it fits
/// the remaining capacity (then the result is true), else a leading
/// part of it.
#[verifier::rlimit(60)]
fn append_encounter(s: &mut heapless::String<2048>, e: &EncounterLog, with_sep: bool) -> (r: bool)
    requires
        is_ascii_chars(str2048_chars(*old(s))),
    ensures
        is_ascii_chars(str2048_chars(*final(s))),
        str2048_chars(*old(s)).len() <= 2048 ==> str2048_chars(*final(s)).len() <= 2048,
        str2048_chars(*old(s)).len() + encounter_piece(*e, with_sep).len() <= 2048 ==> r,
        r ==> str2048_chars(*final(s)) == str2048_chars(*old(s)) + encounter_piece(*e, with_sep),
        !r ==> exists|k: int|
            0 <= k < encounter_piece(*e, with_sep).len() && str2048_chars(*final(s))
                == str2048_chars(*old(s)) + (#[trigger] encounter_piece(*e, with_sep).subrange(
                0,
                k,
            )),
{
    let ghost base = str2048_chars(*old(s));
    let ghost piece = encounter_piece(*e, with_sep);
    let ghost sep: Seq<char> = if with_sep {
        ","@
    } else {
        Seq::<char>::empty()
    };
    let ghost litm = "{\"mac_addr\":\""@;
    let ghost litt = "\",\"timestamp\":"@;
    let ghost macs = colon_hex(e.mac_addr@);
    let ghost dts = dec_chars(e.timestamp);
    proof {
        reveal_strlit(",");
        reveal_strlit("{\"mac_addr\":\"");
        reveal_strlit("\",\"timestamp\":");
        reveal_strlit("}");
        lemma_dec_chars_props(e.timestamp);
        assert(piece =~= sep + litm + macs + litt + dts + "}"@);
    }
    if with_sep {
        if !str2048_push_str(s, ",") {
            proof {
                assert(str2048_chars(*s) =~= base + piece.subrange(0, 0));
            }
            return false;
        }
    }
    if !str2048_push_str(s, "{\"mac_addr\":\"") {
        proof {
            assert(str2048_chars(*s) =~= base + piece.subrange(0, sep.len() as int));
        }
        return false;
    }
    let mac = fmt_bytes_colon(e.mac_addr.as_slice());
    if !str2048_push_str(s, str64_as_str(&mac)) {
        proof {
            assert(str2048_chars(*s) =~= base + piece.subrange(
                0,
                (sep.len() + litm.len()) as int,
            ));
        }
        return false;
    }
    if !str2048_push_str(s, "\",\"timestamp\":") {
        proof {
            assert(str2048_chars(*s) =~= base + piece.subrange(
                0,
                (sep.len() + litm.len() + macs.len()) as int,
            ));
        }
        return false;
    }
    let ghost before_num = str2048_chars(*s);
    if !append_u64(s, e.timestamp) {
        proof {
            let k2 = choose|k2: int|
                0 <= k2 < dts.len() && str2048_chars(*s) == before_num + (#[trigger] dts.subrange(
                    0,
                    k2,
                ));
            assert(str2048_chars(*s) =~= base + piece.subrange(
                0,
                (sep.len() + litm.len() + macs.len() + litt.len()) as int + k2,
            ));
        }
        return false;
    }
    if !str2048_push_str(s, "}") {
        proof {
            assert(str2048_chars(*s) =~= base + piece.subrange(0, piece.len() - 1));
        }
        return false;
    }
    proof {
        assert(str2048_chars(*s) =~= base + piece);
    }
    true
}

/// Serialize the payload as JSON and say whether all of it fit: the
/// device id and every sighting's address as colon-hex text, the
/// timestamps in decimal.  The whole text whenever it fits the
/// 2048-byte buffer (then the flag is true); a longer text comes out
/// cut short, always as a leading piece of the full text.
#[verifier::rlimit(100)]
pub fn serialize_to_json_checked(payload: &ApiPayload<'_>) -> (r: (heapless::String<2048>, bool))
    ensures
        is_ascii_chars(str2048_chars(r.0)),
        str2048_chars(r.0).len() <= 2048,
        str2048_chars(r.0) == payload_json(
            payload.device_id@,
            payload.encounters@,
            payload.reported_at,
        ).subrange(0, str2048_chars(r.0).len() as int),
        r.1 == (payload_json(payload.device_id@, payload.encounters@, payload.reported_at).len()
            <= 2048),
        r.1 ==> str2048_chars(r.0) == payload_json(
            payload.device_id@,
            payload.encounters@,
            payload.reported_at,
        ),
{
    let ghost dev = payload.device_id@;
    let ghost es = payload.encounters@;
    let ghost at = payload.reported_at;
    let ghost full = payload_json(dev, es, at);
    let ghost lit1 = "{\"device_id\":\""@;
    let ghost lit2 = "\",\"reported_at\":"@;
    let ghost lit3 = ",\"encounters\":["@;
    let ghost tail_list = encounters_json_from(es, 0) + "]}"@;
    proof {
        reveal_strlit("{\"device_id\":\"");
        reveal_strlit("\",\"reported_at\":");
        reveal_strlit(",\"encounters\":[");
        reveal_strlit("{\"mac_addr\":\"");
        reveal_strlit("\",\"timestamp\":");
        reveal_strlit("}");
        reveal_strlit(",");
        reveal_strlit("]}");
        lemma_dec_chars_props(at);
        lemma_encounters_json_split(es, 0);
        assert(full =~= lit1 + colon_hex(dev) + lit2 + dec_chars(at) + lit3 + tail_list);
    }
    let mut s = str2048_new();
    let mut ok = str2048_push_str(&mut s, "{\"device_id\":\"");
    proof {
        assert(full =~= lit1 + (colon_hex(dev) + lit2 + dec_chars(at) + lit3 + tail_list));
        lemma_leading_block(lit1, colon_hex(dev) + lit2 + dec_chars(at) + lit3 + tail_list, full);
    }
    let id = fmt_bytes_colon(payload.device_id.as_slice());
    if ok {
        ok = str2048_push_str(&mut s, str64_as_str(&id));
    }
    proof {
        assert(full =~= (lit1 + colon_hex(dev)) + (lit2 + dec_chars(at) + lit3 + tail_list));
        lemma_leading_block(
            lit1 + colon_hex(dev),
            lit2 + dec_chars(at) + lit3 + tail_list,
            full,
        );
    }
    if ok {
        ok = str2048_push_str(&mut s, "\",\"reported_at\":");
    }
    proof {
        assert(full =~= (lit1 + colon_hex(dev) + lit2) + (dec_chars(at) + lit3 + tail_list));
        lemma_leading_block(lit1 + colon_hex(dev) + lit2, dec_chars(at) + lit3 + tail_list, full);
    }
    if ok {
        ok = append_u64(&mut s, payload.reported_at);
        proof {
            if !ok {
                let k = choose|k: int|
                    0 <= k < dec_chars(at).len() && str2048_chars(s) == (lit1 + colon_hex(dev)
                        + lit2) + (#[trigger] dec_chars(at).subrange(0, k));
                assert(full =~= str2048_chars(s) + (dec_chars(at).subrange(
                    k,
                    dec_chars(at).len() as int,
                ) + lit3 + tail_list));
                lemma_leading_block(
                    str2048_chars(s),
                    dec_chars(at).subrange(k, dec_chars(at).len() as int) + lit3 + tail_list,
                    full,
                );
            }
        }
    }
    proof {
        assert(full =~= (lit1 + colon_hex(dev) + lit2 + dec_chars(at)) + (lit3 + tail_list));
        lemma_leading_block(lit1 + colon_hex(dev) + lit2 + dec_chars(at), lit3 + tail_list, full);
    }
    if ok {
        ok = str2048_push_str(&mut s, ",\"encounters\":[");
        proof {
            if ok {
                assert(str2048_chars(s) =~= json_head(dev, at));
            }
        }
    }
    proof {
        assert(full =~= json_head(dev, at) + tail_list);
        lemma_leading_block(json_head(dev, at), tail_list, full);
    }
    let count = payload.encounters.len();
    let mut i: usize = 0;
    while i < count
        invariant
            count == es.len(),
            i <= count,
            dev == payload.device_id@,
            es == payload.encounters@,
            at == payload.reported_at,
            full == payload_json(dev, es, at),
            is_ascii_chars(str2048_chars(s)),
            str2048_chars(s).len() <= 2048,
            str2048_chars(s) == full.subrange(0, str2048_chars(s).len() as int),
            full.len() <= 2048 ==> ok,
            ok ==> str2048_chars(s) == json_head(dev, at) + encounters_json(es, i as int),
        decreases count - i,
    {
        let ghost c0 = json_head(dev, at) + encounters_json(es, i as int);
        let ghost piece = encounter_piece(es[i as int], i > 0);
        let ghost rest = encounters_json_from(es, i + 1) + "]}"@;
        proof {
            lemma_encounters_json_split(es, i as int);
            lemma_encounters_json_split(es, i + 1);
            assert(encounters_json_from(es, i as int) =~= piece + encounters_json_from(es, i + 1));
            assert(full =~= c0 + (piece + rest));
        }
        let e = payload.encounters[i];
        if ok {
            let ghost before = str2048_chars(s);
            ok = append_encounter(&mut s, &e, i > 0);
            proof {
                if !ok {
                    let k = choose|k: int|
                        0 <= k < piece.len() && str2048_chars(s) == before + (
                        #[trigger] piece.subrange(0, k));
                    assert(full =~= str2048_chars(s) + (piece.subrange(k, piece.len() as int)
                        + rest));
                    lemma_leading_block(
                        str2048_chars(s),
                        piece.subrange(k, piece.len() as int) + rest,
                        full,
                    );
                }
            }
        }
        i = i + 1;
        proof {
            assert(full =~= (c0 + piece) + rest);
            lemma_leading_block(c0 + piece, rest, full);
            if ok {
                if i == 1 {
                    assert(encounters_json(es, 1) =~= encounter_json(es[0]));
                }
                assert(str2048_chars(s) =~= json_head(dev, at) + encounters_json(es, i as int));
            }
        }
    }
    if ok {
        ok = str2048_push_str(&mut s, "]}");
        proof {
            assert(full =~= (json_head(dev, at) + encounters_json(es, count as int) + "]}"@)
                + Seq::<char>::empty());
            lemma_leading_block(
                json_head(dev, at) + encounters_json(es, count as int) + "]}"@,
                Seq::<char>::empty(),
                full,
            );
            if ok {
                assert(str2048_chars(s) =~= full);
            }
        }
    }
    (s, ok)
}

/// Serialize the payload as JSON, without the completeness flag of
/// [`serialize_to_json_checked`].
pub fn serialize_to_json(payload: &ApiPayload<'_>) -> (r: heapless::String<2048>)
    ensures
        is_ascii_chars(str2048_chars(r)),
        str2048_chars(r).len() <= 2048,
        str2048_chars(r) == payload_json(
            payload.device_id@,
            payload.encounters@,
            payload.reported_at,
        ).subrange(0, str2048_chars(r).len() as int),
        payload_json(payload.device_id@, payload.encounters@, payload.reported_at).len() <= 2048
            ==> str2048_chars(r) == payload_json(
            payload.device_id@,
            payload.encounters@,
            payload.reported_at,
        ),
{
    let (s, _complete) = serialize_to_json_checked(payload);
    s
}

/// The text of the HTTP request head that precedes the JSON body.
pub open spec fn request_head_chars(host: Seq<char>, path: Seq<char>, body_len: u64) -> Seq<char> {
    "POST "@ + path + " HTTP/1.1\r\nHost: "@ + host
        + "\r\nContent-Type: application/json\r\nConnection: close\r\nContent-Length: "@
        + dec_chars(body_len) + "\r\n\r\n"@
}

/// Build the HTTP request head for a POST of `body_len` bytes to
/// `path` on `host`: the whole head whenever it fits the 2048-byte
/// buffer, else a leading piece of it.
#[verifier::rlimit(60)]
pub fn build_request_head(host: &str, path: &str, body_len: u64) -> (r: heapless::String<2048>)
    requires
        is_ascii_chars(host@),
        is_ascii_chars(path@),
    ensures
        is_ascii_chars(str2048_chars(r)),
        str2048_chars(r).len() <= 2048,
        str2048_chars(r) == request_head_chars(host@, path@, body_len).subrange(
            0,
            str2048_chars(r).len() as int,
        ),
        request_head_chars(host@, path@, body_len).len() <= 2048 ==> str2048_chars(r)
            == request_head_chars(host@, path@, body_len),
{
    let ghost full = request_head_chars(host@, path@, body_len);
    let ghost lit1 = "POST "@;
    let ghost lit2 = " HTTP/1.1\r\nHost: "@;
    let ghost lit3 =
        "\r\nContent-Type: application/json\r\nConnection: close\r\nContent-Length: "@;
    let ghost lit4 = "\r\n\r\n"@;
    proof {
        reveal_strlit("POST ");
        reveal_strlit(" HTTP/1.1\r\nHost: ");
        reveal_strlit("\r\nContent-Type: application/json\r\nConnection: close\r\nContent-Length: ");
        reveal_strlit("\r\n\r\n");
        lemma_dec_chars_props(body_len);
    }
    let mut s = str2048_new();
    let mut ok = str2048_push_str(&mut s, "POST ");
    proof {
        if ok {
            assert(str2048_chars(s) =~= lit1);
        }
        assert(full =~= lit1 + (path@ + lit2 + host@ + lit3 + dec_chars(body_len) + lit4));
        lemma_leading_block(lit1, path@ + lit2 + host@ + lit3 + dec_chars(body_len) + lit4, full);
    }
    if ok {
        ok = str2048_push_str(&mut s, path);
    }
    proof {
        if ok {
            assert(str2048_chars(s) =~= lit1 + path@);
        }
        assert(full =~= (lit1 + path@) + (lit2 + host@ + lit3 + dec_chars(body_len) + lit4));
        lemma_leading_block(lit1 + path@, lit2 + host@ + lit3 + dec_chars(body_len) + lit4, full);
    }
    if ok {
        ok = str2048_push_str(&mut s, " HTTP/1.1\r\nHost: ");
    }
    proof {
        if ok {
            assert(str2048_chars(s) =~= lit1 + path@ + lit2);
        }
        assert(full =~= (lit1 + path@ + lit2) + (host@ + lit3 + dec_chars(body_len) + lit4));
        lemma_leading_block(lit1 + path@ + lit2, host@ + lit3 + dec_chars(body_len) + lit4, full);
    }
    if ok {
        ok = str2048_push_str(&mut s, host);
    }
    proof {
        if ok {
            assert(str2048_chars(s) =~= lit1 + path@ + lit2 + host@);
        }
        assert(full =~= (lit1 + path@ + lit2 + host@) + (lit3 + dec_chars(body_len) + lit4));
        lemma_leading_block(lit1 + path@ + lit2 + host@, lit3 + dec_chars(body_len) + lit4, full);
    }
    if ok {
        ok = str2048_push_str(
            &mut s,
            "\r\nContent-Type: application/json\r\nConnection: close\r\nContent-Length: ",
        );
    }
    proof {
        if ok {
            assert(str2048_chars(s) =~= lit1 + path@ + lit2 + host@ + lit3);
        }
        assert(full =~= (lit1 + path@ + lit2 + host@ + lit3) + (dec_chars(body_len) + lit4));
        lemma_leading_block(lit1 + path@ + lit2 + host@ + lit3, dec_chars(body_len) + lit4, full);
    }
    if ok {
        ok = append_u64(&mut s, body_len);
        proof {
            if !ok {
                let k = choose|k: int|
                    0 <= k < dec_chars(body_len).len() && str2048_chars(s) == (lit1 + path@ + lit2
                        + host@ + lit3) + (#[trigger] dec_chars(body_len).subrange(0, k));
                assert(full =~= str2048_chars(s) + (dec_chars(body_len).subrange(
                    k,
                    dec_chars(body_len).len() as int,
                ) + lit4));
                lemma_leading_block(
                    str2048_chars(s),
                    dec_chars(body_len).subrange(k, dec_chars(body_len).len() as int) + lit4,
                    full,
                );
            }
        }
    }
    proof {
        assert(full =~= (lit1 + path@ + lit2 + host@ + lit3 + dec_chars(body_len)) + lit4);
        lemma_leading_block(
            lit1 + path@ + lit2 + host@ + lit3 + dec_chars(body_len),
            lit4,
            full,
        );
    }
    if ok {
        str2048_push_str(&mut s, "\r\n\r\n");
        proof {
            assert(full =~= (lit1 + path@ + lit2 + host@ + lit3 + dec_chars(body_len) + lit4)
                + Seq::<char>::empty());
            lemma_leading_block(
                lit1 + path@ + lit2 + host@ + lit3 + dec_chars(body_len) + lit4,
                Seq::<char>::empty(),
                full,
            );
            if full.len() <= 2048 {
                assert(str2048_chars(s) =~= full);
            }
        }
    }
    s
}

/// Whether a byte is an ASCII decimal digit.
pub open spec fn is_digit(b: u8) -> bool {
    48 <= b <= 57
}

/// The index of the first space in `buf` at or past `i`, or the length
/// when there is none.
pub open spec fn first_space(buf: Seq<u8>, i: int) -> int
    decreases buf.len() - i,
{
    if i < 0 || i >= buf.len() {
        buf.len() as int
    } else if buf[i] == 32u8 {
        i
    } else {
        first_space(buf, i + 1)
    }
}

/// The status code read from the front of an HTTP response: the bytes
/// must open with `HTTP/1.`, and the three bytes after the first space
/// must be decimal digits.
pub open spec fn spec_http_status(buf: Seq<u8>) -> Option<u16> {
    if buf.len() < 12 {
        None
    } else if !(buf[0] == 72u8 && buf[1] == 84u8 && buf[2] == 84u8 && buf[3] == 80u8 && buf[4]
        == 47u8 && buf[5] == 49u8 && buf[6] == 46u8) {
        None
    } else {
        let i = first_space(buf, 0);
        if i + 4 > buf.len() {
            None
        } else if is_digit(buf[i + 1]) && is_digit(buf[i + 2]) && is_digit(buf[i + 3]) {
            Some(
                (((buf[i + 1] - 48) * 100 + (buf[i + 2] - 48) * 10 + (buf[i + 3] - 48)) as u16),
            )
        } else {
            None
        }
    }
}

/// Read the status code out of the front of an HTTP/1.x response, if
/// one is there.
pub fn parse_http_status(buf: &[u8]) -> (r: Option<u16>)
    ensures
        r == spec_http_status(buf@),
{
    let n = buf.len();
    if n < 12 {
        return None;
    }
    if !(buf[0] == 72 && buf[1] == 84 && buf[2] == 84 && buf[3] == 80 && buf[4] == 47 && buf[5]
        == 49 && buf[6] == 46) {
        return None;
    }
    let mut i: usize = 0;
    while i < n && buf[i] != 32
        invariant
            n == buf@.len(),
            i <= n,
            first_space(buf@, 0) == first_space(buf@, i as int),
        decreases n - i,
    {
        i = i + 1;
    }
    proof {
        assert(first_space(buf@, 0) == i);
    }
    if i > n - 4 {
        return None;
    }
    let d1 = buf[i + 1];
    let d2 = buf[i + 2];
    let d3 = buf[i + 3];
    if d1 >= 48 && d1 <= 57 && d2 >= 48 && d2 <= 57 && d3 >= 48 && d3 <= 57 {
        let code: u16 = ((d1 - 48) as u16) * 100 + ((d2 - 48) as u16) * 10 + ((d3 - 48) as u16);
        Some(code)
    } else {
        None
    }
}

/// Whether the upload counts as delivered: a readable status line
/// must be in the 2xx range, while an unreadable one is deliberately
/// taken as delivered — a collector that answers at all, however
/// garbled, is trusted over re-sending the same records forever.
pub fn upload_accepted(status: Option<u16>) -> (r: bool)
    ensures
        r == match status {
            None => true,
            Some(code) => 200 <= code < 300,
        },
{
    match status {
        None => true,
        Some(code) => 200 <= code && code < 300,
    }
}

} // verus!
