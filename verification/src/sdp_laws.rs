//! Laws of SDP: what the generator writes, the parser and the negotiation
//! read back.

use vstd::prelude::*;
use vstd::string::*;

use crate::sdp;
use crate::text;
use crate::types;
use crate::types::AudioCodec;

verus! {

/// Address text that stands on one line and has no whitespace around it.
pub open spec fn plain_address(ip: Seq<char>) -> bool {
    &&& ip.len() > 0
    &&& text::free_of(ip, '\n')
    &&& !text::is_space(ip[0])
    &&& !text::is_space(ip.last())
}

/// The first of `prefs` that is among `codecs`, else PCMU.
pub open spec fn first_common(prefs: Seq<AudioCodec>, codecs: Seq<AudioCodec>) -> AudioCodec
    decreases prefs.len(),
{
    if prefs.len() == 0 {
        AudioCodec::Pcmu
    } else if codecs.contains(prefs[0]) {
        prefs[0]
    } else {
        first_common(prefs.skip(1), codecs)
    }
}

// ── Lines of a generated description ────────────────────────────────────────

/// A line that can stand in a description: it has no line break, and its
/// first character is not whitespace.
spec fn clean(line: Seq<char>) -> bool {
    &&& line.len() > 0
    &&& !text::is_space(line[0])
    &&& text::free_of(line, '\n')
}

/// Every one of `lines` is clean and starts with `a`.
spec fn attributes(lines: Seq<Seq<char>>) -> bool {
    forall|i: int| 0 <= i < lines.len() ==> clean(#[trigger] lines[i]) && lines[i][0] == 'a'
}

/// A line that comes out of a description as it was put in.
spec fn solid(line: Seq<char>) -> bool {
    clean(line) && !text::is_space(line.last())
}

proof fn lemma_free_append(a: Seq<char>, b: Seq<char>, c: char)
    requires
        text::free_of(a, c),
        text::free_of(b, c),
    ensures
        text::free_of(a + b, c),
{
    assert forall|i: int| 0 <= i < (a + b).len() implies #[trigger] (a + b)[i] != c by {
        if i < a.len() {
            assert((a + b)[i] == a[i]);
        } else {
            assert((a + b)[i] == b[i - a.len()]);
        }
    }
}

proof fn lemma_digits_plain(s: Seq<char>)
    requires
        text::all_digits(s),
    ensures
        text::free_of(s, '\n'),
        text::no_space(s),
{
    assert forall|i: int| 0 <= i < s.len() implies #[trigger] s[i] != '\n' by {
        assert(text::is_digit(s[i]));
    }
    assert forall|i: int| 0 <= i < s.len() implies !text::is_space(#[trigger] s[i]) by {
        assert(text::is_digit(s[i]));
    }
}

/// Splitting a CR LF text gives its lines, each with the CR still on it, and
/// the empty rest.
proof fn lemma_split_crlf(lines: Seq<Seq<char>>)
    requires
        forall|i: int| 0 <= i < lines.len() ==> text::free_of(#[trigger] lines[i], '\n'),
    ensures
        text::split(sdp::with_crlf(lines), '\n').len() == lines.len() + 1,
        forall|i: int|
            0 <= i < lines.len() ==> #[trigger] text::split(sdp::with_crlf(lines), '\n')[i]
                == lines[i].push('\r'),
        text::split(sdp::with_crlf(lines), '\n')[lines.len() as int] == Seq::<char>::empty(),
    decreases lines.len(),
{
    reveal_strlit("\r\n");
    let all = sdp::with_crlf(lines);
    if lines.len() == 0 {
        assert(all =~= Seq::<char>::empty());
    } else {
        let rest = lines.skip(1);
        assert forall|i: int| 0 <= i < rest.len() implies text::free_of(
            #[trigger] rest[i],
            '\n',
        ) by {
            assert(rest[i] == lines[i + 1]);
        }
        lemma_split_crlf(rest);
        let first = lines[0].push('\r');
        assert(text::free_of(first, '\n')) by {
            assert forall|i: int| 0 <= i < first.len() implies #[trigger] first[i] != '\n' by {
                if i < lines[0].len() {
                    assert(first[i] == lines[0][i]);
                }
            }
        }
        assert(all =~= first + seq!['\n'] + sdp::with_crlf(rest));
        text::lemma_split_first(first, '\n', sdp::with_crlf(rest));
        assert forall|i: int| 0 <= i < lines.len() implies #[trigger] text::split(all, '\n')[i]
            == lines[i].push('\r') by {
            if i > 0 {
                assert(text::split(sdp::with_crlf(rest), '\n')[i - 1] == rest[i - 1].push('\r'));
            }
        }
    }
}

proof fn lemma_lit_free(s: Seq<char>, n: nat)
    requires
        s.len() == n,
        text::free_up_to(s, n, '\n'),
    ensures
        text::free_of(s, '\n'),
{
    text::lemma_free_up_to(s, n, '\n');
    assert(s.take(n as int) =~= s);
}

proof fn lemma_payload_list_free(codecs: Seq<AudioCodec>)
    ensures
        text::free_of(sdp::payload_list(codecs), '\n'),
    decreases codecs.len(),
{
    if codecs.len() > 0 {
        lemma_payload_list_free(codecs.drop_last());
        let pt = text::decimal(types::codec_payload_type(codecs.last()) as nat);
        text::lemma_decimal(types::codec_payload_type(codecs.last()) as nat);
        lemma_digits_plain(pt);
        reveal_strlit(" ");
        lemma_free_append(sdp::payload_list(codecs.drop_last()), " "@, '\n');
        lemma_free_append(sdp::payload_list(codecs.drop_last()) + " "@, pt, '\n');
    }
}

proof fn lemma_head_clean(port: u16, ip: Seq<char>, codecs: Seq<AudioCodec>)
    requires
        text::free_of(ip, '\n'),
    ensures
        forall|i: int|
            0 <= i < 6 ==> clean(#[trigger] sdp::session_head(port, ip, codecs)[i]),
        sdp::session_head(port, ip, codecs)[0][0] == 'v',
        sdp::session_head(port, ip, codecs)[1][0] == 'o',
        sdp::session_head(port, ip, codecs)[2][0] == 's',
        sdp::session_head(port, ip, codecs)[3][0] == 'c',
        sdp::session_head(port, ip, codecs)[4][0] == 't',
        sdp::session_head(port, ip, codecs)[5][0] == 'm',
{
    reveal_strlit("v=0");
    reveal_strlit("o=aria 0 0 IN IP4 ");
    reveal_strlit("s=Aria Mobile");
    reveal_strlit("c=IN IP4 ");
    reveal_strlit("t=0 0");
    reveal_strlit("m=audio ");
    reveal_strlit(" RTP/AVP");
    reveal_strlit(" 101");
    reveal_with_fuel(text::free_up_to, 20);
    lemma_lit_free("v=0"@, 3);
    lemma_lit_free("o=aria 0 0 IN IP4 "@, 18);
    lemma_lit_free("s=Aria Mobile"@, 13);
    lemma_lit_free("c=IN IP4 "@, 9);
    lemma_lit_free("t=0 0"@, 5);
    lemma_lit_free("m=audio "@, 8);
    lemma_lit_free(" RTP/AVP"@, 8);
    lemma_lit_free(" 101"@, 4);
    lemma_free_append("o=aria 0 0 IN IP4 "@, ip, '\n');
    lemma_free_append("c=IN IP4 "@, ip, '\n');
    let dec = text::decimal(port as nat);
    text::lemma_decimal(port as nat);
    lemma_digits_plain(dec);
    lemma_payload_list_free(codecs);
    let m1 = "m=audio "@ + dec;
    let m2 = m1 + " RTP/AVP"@;
    let m3 = m2 + sdp::payload_list(codecs);
    lemma_free_append("m=audio "@, dec, '\n');
    lemma_free_append(m1, " RTP/AVP"@, '\n');
    lemma_free_append(m2, sdp::payload_list(codecs), '\n');
    lemma_free_append(m3, " 101"@, '\n');
    let head = sdp::session_head(port, ip, codecs);
    assert(head[5] == m3 + " 101"@);
    assert(clean(head[0]) && clean(head[1]) && clean(head[2]));
    assert(clean(head[3]) && clean(head[4]) && clean(head[5]));
    assert forall|i: int| 0 <= i < 6 implies clean(#[trigger] head[i]) by {
        assert(i == 0 || i == 1 || i == 2 || i == 3 || i == 4 || i == 5);
    }
}

proof fn lemma_codec_lines_attributes(codec: AudioCodec)
    ensures
        attributes(sdp::codec_lines(codec)),
{
    reveal_strlit("a=rtpmap:");
    reveal_strlit("a=fmtp:");
    reveal_strlit(" useinbandfec=1");
    reveal_strlit("/2");
    reveal_strlit("/");
    reveal_strlit(" ");
    reveal_strlit("PCMU");
    reveal_strlit("PCMA");
    reveal_strlit("opus");
    reveal_strlit("G729");
    reveal_with_fuel(text::free_up_to, 16);
    lemma_lit_free("a=rtpmap:"@, 9);
    lemma_lit_free("a=fmtp:"@, 7);
    lemma_lit_free(" useinbandfec=1"@, 15);
    lemma_lit_free("/2"@, 2);
    lemma_lit_free("/"@, 1);
    lemma_lit_free(" "@, 1);
    lemma_lit_free(types::codec_name(codec), 4);
    let pt = text::decimal(types::codec_payload_type(codec) as nat);
    let rate = text::decimal(types::codec_clock_rate(codec) as nat);
    text::lemma_decimal(types::codec_payload_type(codec) as nat);
    text::lemma_decimal(types::codec_clock_rate(codec) as nat);
    lemma_digits_plain(pt);
    lemma_digits_plain(rate);
    let a = "a=rtpmap:"@ + pt;
    let b = a + " "@;
    let c = b + types::codec_name(codec);
    let d = c + "/"@;
    let e = d + rate;
    lemma_free_append("a=rtpmap:"@, pt, '\n');
    lemma_free_append(a, " "@, '\n');
    lemma_free_append(b, types::codec_name(codec), '\n');
    lemma_free_append(c, "/"@, '\n');
    lemma_free_append(d, rate, '\n');
    lemma_free_append(e, "/2"@, '\n');
    let f = "a=fmtp:"@ + pt;
    lemma_free_append("a=fmtp:"@, pt, '\n');
    lemma_free_append(f, " useinbandfec=1"@, '\n');
    assert(clean(e) && e[0] == 'a');
    assert(clean(e + "/2"@) && (e + "/2"@)[0] == 'a');
    assert(clean(f + " useinbandfec=1"@) && (f + " useinbandfec=1"@)[0] == 'a');
    let lines = sdp::codec_lines(codec);
    assert forall|i: int| 0 <= i < lines.len() implies clean(#[trigger] lines[i]) && lines[i][0]
        == 'a' by {
        assert(i == 0 || i == 1);
    }
}

proof fn lemma_all_codec_lines_attributes(codecs: Seq<AudioCodec>)
    ensures
        attributes(sdp::all_codec_lines(codecs)),
    decreases codecs.len(),
{
    if codecs.len() > 0 {
        let a = sdp::all_codec_lines(codecs.drop_last());
        let b = sdp::codec_lines(codecs.last());
        lemma_all_codec_lines_attributes(codecs.drop_last());
        lemma_codec_lines_attributes(codecs.last());
        assert forall|i: int| 0 <= i < (a + b).len() implies clean(#[trigger] (a + b)[i]) && (a
            + b)[i][0] == 'a' by {
            if i < a.len() {
                assert((a + b)[i] == a[i]);
            } else {
                assert((a + b)[i] == b[i - a.len()]);
            }
        }
    }
}

proof fn lemma_tail_attributes()
    ensures
        attributes(sdp::session_tail()),
{
    reveal_strlit("a=rtpmap:101 telephone-event/8000");
    reveal_strlit("a=fmtp:101 0-16");
    reveal_strlit("a=sendrecv");
    reveal_with_fuel(text::free_up_to, 34);
    lemma_lit_free("a=rtpmap:101 telephone-event/8000"@, 33);
    lemma_lit_free("a=fmtp:101 0-16"@, 15);
    lemma_lit_free("a=sendrecv"@, 10);
    let tail = sdp::session_tail();
    assert forall|i: int| 0 <= i < tail.len() implies clean(#[trigger] tail[i]) && tail[i][0]
        == 'a' by {
        assert(i == 0 || i == 1 || i == 2);
    }
}

/// The lines that the parser sees in a generated description.
proof fn lemma_session_lines(port: u16, ip: Seq<char>, codecs: Seq<AudioCodec>)
    requires
        text::free_of(ip, '\n'),
    ensures
        ({
            let seen = sdp::sdp_lines(sdp::session_text(port, ip, codecs));
            let head = sdp::session_head(port, ip, codecs);
            &&& seen.len() >= 10
            &&& forall|i: int|
                0 <= i < 6 ==> #[trigger] seen[i] == text::trim(head[i].push('\r'))
            &&& forall|i: int|
                6 <= i < seen.len() ==> (#[trigger] seen[i]).len() == 0 || seen[i][0] == 'a'
        }),
{
    let lines = sdp::session_lines(port, ip, codecs);
    let head = sdp::session_head(port, ip, codecs);
    let middle = sdp::all_codec_lines(codecs);
    let tail = sdp::session_tail();
    lemma_head_clean(port, ip, codecs);
    lemma_all_codec_lines_attributes(codecs);
    lemma_tail_attributes();
    assert forall|i: int| 0 <= i < lines.len() implies clean(#[trigger] lines[i]) && (i >= 6
        ==> lines[i][0] == 'a') by {
        if i < 6 {
            assert(lines[i] == head[i]);
        } else if i < 6 + middle.len() {
            assert(lines[i] == middle[i - 6]);
        } else {
            assert(lines[i] == tail[i - 6 - middle.len()]);
        }
    }
    lemma_split_crlf(lines);
    let pieces = text::split(sdp::session_text(port, ip, codecs), '\n');
    let seen = sdp::sdp_lines(sdp::session_text(port, ip, codecs));
    assert forall|i: int| 0 <= i < 6 implies #[trigger] seen[i] == text::trim(
        head[i].push('\r'),
    ) by {
        assert(seen[i] == text::trim(pieces[i]));
        assert(lines[i] == head[i]);
    }
    assert forall|i: int| 6 <= i < seen.len() implies (#[trigger] seen[i]).len() == 0
        || seen[i][0] == 'a' by {
        assert(seen[i] == text::trim(pieces[i]));
        if i < lines.len() {
            assert(pieces[i] == lines[i].push('\r'));
            assert(lines[i].push('\r')[0] == lines[i][0]);
            text::lemma_trim_keeps_first(lines[i].push('\r'));
        }
    }
}

// ── Words of the media line ─────────────────────────────────────────────────

/// The payload type numbers of `codecs`, in decimal.
spec fn payload_words(codecs: Seq<AudioCodec>) -> Seq<Seq<char>> {
    codecs.map_values(
        |codec: AudioCodec| text::decimal(types::codec_payload_type(codec) as nat),
    )
}

proof fn lemma_payload_words(before: Seq<char>, codecs: Seq<AudioCodec>)
    ensures
        text::words(before + sdp::payload_list(codecs)) == text::words(before) + payload_words(
            codecs,
        ),
    decreases codecs.len(),
{
    if codecs.len() == 0 {
        assert(before + sdp::payload_list(codecs) =~= before);
        assert(text::words(before) + payload_words(codecs) =~= text::words(before));
    } else {
        let init = codecs.drop_last();
        let pt = text::decimal(types::codec_payload_type(codecs.last()) as nat);
        lemma_payload_words(before, init);
        text::lemma_decimal(types::codec_payload_type(codecs.last()) as nat);
        lemma_digits_plain(pt);
        reveal_strlit(" ");
        let so_far = before + sdp::payload_list(init);
        assert(before + sdp::payload_list(codecs) =~= so_far + seq![' '] + pt);
        text::lemma_words_join(so_far, ' ', pt);
        text::lemma_words_single(pt);
        assert(payload_words(codecs) =~= payload_words(init) + seq![pt]);
        assert(text::words(before) + payload_words(codecs) =~= text::words(before)
            + payload_words(init) + seq![pt]);
    }
}

proof fn lemma_media_words(port: u16, codecs: Seq<AudioCodec>)
    ensures
        text::words(sdp::media_text(port, codecs)) == seq![
            "m=audio"@,
            text::decimal(port as nat),
            "RTP/AVP"@,
        ] + payload_words(codecs) + seq!["101"@],
{
    reveal_strlit("m=audio ");
    reveal_strlit("m=audio");
    reveal_strlit(" RTP/AVP");
    reveal_strlit("RTP/AVP");
    reveal_strlit(" 101");
    reveal_strlit("101");
    let dec = text::decimal(port as nat);
    text::lemma_decimal(port as nat);
    lemma_digits_plain(dec);
    let a = "m=audio"@;
    let b = "RTP/AVP"@;
    let z = "101"@;
    assert(text::no_space(a)) by {
        assert forall|i: int| 0 <= i < a.len() implies !text::is_space(#[trigger] a[i]) by {
            assert(i == 0 || i == 1 || i == 2 || i == 3 || i == 4 || i == 5 || i == 6);
        }
    }
    assert(text::no_space(b)) by {
        assert forall|i: int| 0 <= i < b.len() implies !text::is_space(#[trigger] b[i]) by {
            assert(i == 0 || i == 1 || i == 2 || i == 3 || i == 4 || i == 5 || i == 6);
        }
    }
    assert(text::no_space(z)) by {
        assert forall|i: int| 0 <= i < z.len() implies !text::is_space(#[trigger] z[i]) by {
            assert(i == 0 || i == 1 || i == 2);
        }
    }
    text::lemma_words_single(a);
    text::lemma_words_single(dec);
    text::lemma_words_single(b);
    text::lemma_words_single(z);
    let m1 = "m=audio "@ + dec;
    assert(m1 =~= a + seq![' '] + dec);
    text::lemma_words_join(a, ' ', dec);
    let m2 = m1 + " RTP/AVP"@;
    assert(m2 =~= m1 + seq![' '] + b);
    text::lemma_words_join(m1, ' ', b);
    let m3 = m2 + sdp::payload_list(codecs);
    lemma_payload_words(m2, codecs);
    let m4 = m3 + " 101"@;
    assert(m4 =~= m3 + seq![' '] + z);
    text::lemma_words_join(m3, ' ', z);
    assert(m4 == sdp::media_text(port, codecs));
    assert(text::words(m2) =~= seq![a, dec, b]);
    assert(text::words(m4) =~= seq![a, dec, b] + payload_words(codecs) + seq![z]);
}

proof fn lemma_codec_for(codec: AudioCodec)
    ensures
        sdp::codec_for(text::decimal(types::codec_payload_type(codec) as nat)) == Some(codec),
{
    reveal_strlit("0");
    reveal_strlit("8");
    reveal_strlit("18");
    reveal_strlit("111");
    reveal_with_fuel(text::decimal, 3);
    let d = text::decimal(types::codec_payload_type(codec) as nat);
    match codec {
        AudioCodec::Pcmu => {
            assert(d =~= "0"@);
        },
        AudioCodec::Pcma => {
            assert(d =~= "8"@);
            assert(d[0] != "0"@[0]);
        },
        AudioCodec::G729 => {
            assert(d =~= "18"@);
            assert(d.len() != "0"@.len());
        },
        AudioCodec::Opus => {
            assert(d =~= "111"@);
            assert(d.len() != "0"@.len());
            assert(d.len() != "18"@.len());
        },
    }
}

/// The first line of which `wanted` holds from the back is found.
proof fn lemma_last_where_at(
    lines: Seq<Seq<char>>,
    wanted: spec_fn(Seq<char>) -> bool,
    k: int,
)
    requires
        0 <= k < lines.len(),
        wanted(lines[k]),
        forall|j: int| k < j < lines.len() ==> !wanted(#[trigger] lines[j]),
    ensures
        sdp::last_where(lines, wanted) == Some(lines[k]),
    decreases lines.len(),
{
    if k < lines.len() - 1 {
        assert(!wanted(lines[lines.len() - 1]));
        lemma_last_where_at(lines.drop_last(), wanted, k);
    }
}

// ── Laws ────────────────────────────────────────────────────────────────────

/// What a generated description announces is what the parser reads from it:
/// the address, the port and the first codec.
pub proof fn parsing_reads_back_the_description(
    port: u16,
    ip: Seq<char>,
    codecs: Seq<AudioCodec>,
)
    requires
        plain_address(ip),
        codecs.len() > 0,
    ensures
        sdp::remote_of(sdp::session_text(port, ip, codecs)) == Some((ip, port as nat, codecs[0])),
{
    let seen = sdp::sdp_lines(sdp::session_text(port, ip, codecs));
    let head = sdp::session_head(port, ip, codecs);
    lemma_session_lines(port, ip, codecs);
    lemma_head_clean(port, ip, codecs);
    lemma_media_words(port, codecs);
    let media = sdp::media_text(port, codecs);
    reveal_strlit("c=IN IP4 ");
    reveal_strlit("m=audio ");
    reveal_strlit(" 101");
    // The connection line and the media line survive trimming unchanged.
    let connection = "c=IN IP4 "@ + ip;
    assert(connection.last() == ip.last());
    text::lemma_trim_one(connection, '\r');
    assert(seen[3] == connection);
    assert(media.last() == '1');
    text::lemma_trim_one(media, '\r');
    assert(seen[5] == media);
    // No later line is one of them.
    assert(text::trim(head[4].push('\r'))[0] == 't') by {
        assert(head[4].push('\r')[0] == head[4][0]);
        text::lemma_trim_keeps_first(head[4].push('\r'));
    }
    assert("c=IN IP4 "@ =~= connection.subrange(0, 9));
    assert(sdp::is_connection(connection));
    assert forall|j: int| 3 < j < seen.len() implies !sdp::is_connection(#[trigger] seen[j]) by {
        if "c=IN IP4 "@.is_prefix_of(seen[j]) {
            assert(seen[j][0] == "c=IN IP4 "@[0]);
            assert(j == 4 || j == 5 || j >= 6);
        }
    }
    lemma_last_where_at(seen, |line: Seq<char>| sdp::is_connection(line), 3);
    assert("m=audio "@ =~= media.subrange(0, 8));
    assert(sdp::is_media(media));
    assert forall|j: int| 5 < j < seen.len() implies !sdp::is_media(#[trigger] seen[j]) by {
        if "m=audio "@.is_prefix_of(seen[j]) {
            assert(seen[j][0] == "m=audio "@[0]);
        }
    }
    lemma_last_where_at(seen, |line: Seq<char>| sdp::is_media(line), 5);
    assert(sdp::last_connection(seen) == Some(connection));
    assert(sdp::last_media(seen) == Some(media));
    // Their contents read back.
    assert(connection.skip(9) =~= ip);
    text::lemma_trim_one(ip, '\r');
    text::lemma_parse_decimal(port as nat, 0xFFFF);
    assert(text::words(media)[1] == text::decimal(port as nat));
    assert(text::words(media)[3] == text::decimal(types::codec_payload_type(codecs[0]) as nat));
    lemma_codec_for(codecs[0]);
}

/// The formats of a generated media line are the payload types of the codecs
/// and that of telephone events.
proof fn lemma_media_formats(port: u16, codecs: Seq<AudioCodec>, codec: AudioCodec)
    ensures
        sdp::lists_format(
            sdp::media_text(port, codecs),
            types::codec_payload_type(codec) as nat,
        ) == codecs.contains(codec),
{
    let media = sdp::media_text(port, codecs);
    let pt = types::codec_payload_type(codec) as nat;
    let formats = text::words(media);
    lemma_media_words(port, codecs);
    if codecs.contains(codec) {
        let k = choose|k: int| 0 <= k < codecs.len() && codecs[k] == codec;
        assert(formats[3 + k] == payload_words(codecs)[k]);
        text::lemma_parse_decimal(pt, 0xFF);
        assert(text::parse_number(formats[3 + k], 0xFF) == Some(pt));
    }
    if sdp::lists_format(media, pt) {
        let i = choose|i: int|
            3 <= i < formats.len() && #[trigger] text::parse_number(formats[i], 0xFF) == Some(
                pt,
            );
        if i < 3 + codecs.len() {
            let other = codecs[i - 3];
            assert(formats[i] == payload_words(codecs)[i - 3]);
            text::lemma_parse_decimal(types::codec_payload_type(other) as nat, 0xFF);
            types::payload_types_are_distinct(codec, other);
        } else {
            reveal_strlit("101");
            reveal_with_fuel(text::decimal, 3);
            assert(text::decimal(101) =~= "101"@);
            text::lemma_parse_decimal(101, 0xFF);
            types::payload_types_are_distinct(codec, codec);
        }
    }
}

/// Negotiating against a generated description settles on the first of our
/// preferences that the description lists, and on PCMU if it lists none.
pub proof fn negotiation_picks_the_first_common_codec(
    port: u16,
    ip: Seq<char>,
    codecs: Seq<AudioCodec>,
    prefs: Seq<AudioCodec>,
)
    requires
        text::free_of(ip, '\n'),
    ensures
        sdp::negotiated(sdp::session_text(port, ip, codecs), prefs) == first_common(
            prefs,
            codecs,
        ),
    decreases prefs.len(),
{
    if prefs.len() > 0 {
        lemma_first_audio(port, ip, codecs);
        lemma_media_formats(port, codecs, prefs[0]);
        negotiation_picks_the_first_common_codec(port, ip, codecs, prefs.skip(1));
    }
}

proof fn lemma_first_audio(port: u16, ip: Seq<char>, codecs: Seq<AudioCodec>)
    requires
        text::free_of(ip, '\n'),
    ensures
        sdp::first_audio(sdp::sdp_lines(sdp::session_text(port, ip, codecs))) == Some(
            sdp::media_text(port, codecs),
        ),
{
    let seen = sdp::sdp_lines(sdp::session_text(port, ip, codecs));
    let head = sdp::session_head(port, ip, codecs);
    let media = sdp::media_text(port, codecs);
    lemma_session_lines(port, ip, codecs);
    lemma_head_clean(port, ip, codecs);
    reveal_strlit("m=audio");
    reveal_strlit("m=audio ");
    reveal_strlit(" 101");
    assert(media.last() == '1');
    text::lemma_trim_one(media, '\r');
    assert(seen[5] == media);
    assert("m=audio"@ =~= media.subrange(0, 7));
    assert forall|i: int| 0 <= i < 5 implies !("m=audio"@.is_prefix_of(#[trigger] seen[i])) by {
        assert(head[i].push('\r')[0] == head[i][0]);
        text::lemma_trim_keeps_first(head[i].push('\r'));
        assert(i == 0 || i == 1 || i == 2 || i == 3 || i == 4);
        if "m=audio"@.is_prefix_of(seen[i]) {
            assert(seen[i][0] == "m=audio"@[0]);
        }
    }
    lemma_first_audio_at(seen, 5);
}

proof fn lemma_first_audio_at(lines: Seq<Seq<char>>, k: int)
    requires
        0 <= k < lines.len(),
        "m=audio"@.is_prefix_of(lines[k]),
        forall|i: int| 0 <= i < k ==> !("m=audio"@.is_prefix_of(#[trigger] lines[i])),
    ensures
        sdp::first_audio(lines) == Some(lines[k]),
    decreases k,
{
    if k > 0 {
        assert(!("m=audio"@.is_prefix_of(lines[0])));
        let rest = lines.skip(1);
        assert forall|i: int| 0 <= i < k - 1 implies !("m=audio"@.is_prefix_of(
            #[trigger] rest[i],
        )) by {
            assert(rest[i] == lines[i + 1]);
        }
        lemma_first_audio_at(rest, k - 1);
    }
}

/// An answer settles on the codec it was built for: whoever negotiates
/// against it with that codec among the preferences gets exactly that codec.
pub proof fn answer_settles_the_codec(
    port: u16,
    ip: Seq<char>,
    chosen: AudioCodec,
    prefs: Seq<AudioCodec>,
)
    requires
        text::free_of(ip, '\n'),
        prefs.contains(chosen),
    ensures
        sdp::negotiated(sdp::session_text(port, ip, seq![chosen]), prefs) == chosen,
{
    negotiation_picks_the_first_common_codec(port, ip, seq![chosen], prefs);
    lemma_first_common_single(prefs, chosen);
}

proof fn lemma_first_common_single(prefs: Seq<AudioCodec>, chosen: AudioCodec)
    requires
        prefs.contains(chosen),
    ensures
        first_common(prefs, seq![chosen]) == chosen,
    decreases prefs.len(),
{
    assert(seq![chosen][0] == chosen);
    if prefs[0] != chosen {
        let k = choose|k: int| 0 <= k < prefs.len() && prefs[k] == chosen;
        assert(prefs.skip(1)[k - 1] == chosen);
        lemma_first_common_single(prefs.skip(1), chosen);
    }
}

/// Whatever the offer says, the negotiated codec is one that both sides
/// named, or the PCMU fallback.
pub proof fn negotiated_codec_is_mutual(offer: Seq<char>, prefs: Seq<AudioCodec>)
    ensures
        ({
            let codec = sdp::negotiated(offer, prefs);
            ||| codec == AudioCodec::Pcmu
            ||| prefs.contains(codec) && sdp::offers(
                offer,
                types::codec_payload_type(codec) as nat,
            )
        }),
    decreases prefs.len(),
{
    if prefs.len() > 0 {
        negotiated_codec_is_mutual(offer, prefs.skip(1));
        let codec = sdp::negotiated(offer, prefs);
        if sdp::offers(offer, types::codec_payload_type(prefs[0]) as nat) {
            assert(prefs[0] == codec);
        } else if prefs.skip(1).contains(codec) {
            let k = choose|k: int| 0 <= k < prefs.skip(1).len() && prefs.skip(1)[k] == codec;
            assert(prefs[k + 1] == codec);
        }
    }
}

// ── What a description says ─────────────────────────────────────────────────

/// The attribute lines of a codec, letter by letter.
proof fn lemma_codec_lines_spelled(codec: AudioCodec)
    ensures
        match codec {
            AudioCodec::Pcmu => sdp::codec_lines(codec) == seq!["a=rtpmap:0 PCMU/8000"@],
            AudioCodec::Pcma => sdp::codec_lines(codec) == seq!["a=rtpmap:8 PCMA/8000"@],
            AudioCodec::G729 => sdp::codec_lines(codec) == seq!["a=rtpmap:18 G729/8000"@],
            AudioCodec::Opus => sdp::codec_lines(codec) == seq![
                "a=rtpmap:111 opus/48000/2"@,
                "a=fmtp:111 useinbandfec=1"@,
            ],
        },
{
    reveal_strlit("a=rtpmap:0 PCMU/8000");
    reveal_strlit("a=rtpmap:8 PCMA/8000");
    reveal_strlit("a=rtpmap:18 G729/8000");
    reveal_strlit("a=rtpmap:111 opus/48000/2");
    reveal_strlit("a=fmtp:111 useinbandfec=1");
    reveal_strlit("a=rtpmap:");
    reveal_strlit("a=fmtp:");
    reveal_strlit(" useinbandfec=1");
    reveal_strlit("/2");
    reveal_strlit("/");
    reveal_strlit(" ");
    reveal_strlit("PCMU");
    reveal_strlit("PCMA");
    reveal_strlit("opus");
    reveal_strlit("G729");
    reveal_with_fuel(text::decimal, 6);
    let lines = sdp::codec_lines(codec);
    assert(text::decimal(8000) =~= seq!['8', '0', '0', '0']);
    assert(text::decimal(48000) =~= seq!['4', '8', '0', '0', '0']);
    assert(text::decimal(0) =~= seq!['0']);
    assert(text::decimal(8) =~= seq!['8']);
    assert(text::decimal(18) =~= seq!['1', '8']);
    assert(text::decimal(111) =~= seq!['1', '1', '1']);
    match codec {
        AudioCodec::Pcmu => assert(lines[0] =~= "a=rtpmap:0 PCMU/8000"@),
        AudioCodec::Pcma => assert(lines[0] =~= "a=rtpmap:8 PCMA/8000"@),
        AudioCodec::G729 => assert(lines[0] =~= "a=rtpmap:18 G729/8000"@),
        AudioCodec::Opus => {
            assert(lines[0] =~= "a=rtpmap:111 opus/48000/2"@);
            assert(lines[1] =~= "a=fmtp:111 useinbandfec=1"@);
        },
    }
}

proof fn lemma_codec_lines_solid(codec: AudioCodec, i: int)
    requires
        0 <= i < sdp::codec_lines(codec).len(),
    ensures
        solid(sdp::codec_lines(codec)[i]),
{
    lemma_codec_lines_attributes(codec);
    lemma_codec_lines_spelled(codec);
    reveal_strlit("a=rtpmap:0 PCMU/8000");
    reveal_strlit("a=rtpmap:8 PCMA/8000");
    reveal_strlit("a=rtpmap:18 G729/8000");
    reveal_strlit("a=rtpmap:111 opus/48000/2");
    reveal_strlit("a=fmtp:111 useinbandfec=1");
    assert(i == 0 || i == 1);
    assert(clean(sdp::codec_lines(codec)[i]));
}

proof fn lemma_all_codec_lines(codecs: Seq<AudioCodec>)
    ensures
        forall|i: int|
            0 <= i < sdp::all_codec_lines(codecs).len() ==> solid(
                #[trigger] sdp::all_codec_lines(codecs)[i],
            ) && exists|k: int|
                0 <= k < codecs.len() && #[trigger] sdp::codec_lines(codecs[k]).contains(
                    sdp::all_codec_lines(codecs)[i],
                ),
        forall|k: int, j: int|
            0 <= k < codecs.len() && 0 <= j < sdp::codec_lines(codecs[k]).len()
                ==> sdp::all_codec_lines(codecs).contains(
                #[trigger] sdp::codec_lines(codecs[k])[j],
            ),
    decreases codecs.len(),
{
    let all = sdp::all_codec_lines(codecs);
    if codecs.len() > 0 {
        let init = codecs.drop_last();
        let a = sdp::all_codec_lines(init);
        let b = sdp::codec_lines(codecs.last());
        lemma_all_codec_lines(init);
        assert forall|i: int| 0 <= i < all.len() implies solid(#[trigger] all[i]) && exists|k: int|
            0 <= k < codecs.len() && #[trigger] sdp::codec_lines(codecs[k]).contains(all[i]) by {
            if i < a.len() {
                assert(all[i] == a[i]);
                let k = choose|k: int|
                    0 <= k < init.len() && #[trigger] sdp::codec_lines(init[k]).contains(a[i]);
                assert(codecs[k] == init[k]);
                assert(sdp::codec_lines(codecs[k]).contains(all[i]));
            } else {
                assert(all[i] == b[i - a.len()]);
                lemma_codec_lines_solid(codecs.last(), i - a.len());
                assert(sdp::codec_lines(codecs[codecs.len() - 1]).contains(all[i]));
            }
        }
        assert forall|k: int, j: int|
            0 <= k < codecs.len() && 0 <= j < sdp::codec_lines(codecs[k]).len() implies all.contains(
            #[trigger] sdp::codec_lines(codecs[k])[j],
        ) by {
            if k < init.len() {
                assert(init[k] == codecs[k]);
                assert(a.contains(sdp::codec_lines(init[k])[j]));
                let m = choose|m: int| 0 <= m < a.len() && a[m] == sdp::codec_lines(init[k])[j];
                assert(all[m] == a[m]);
            } else {
                assert(all[a.len() + j] == b[j]);
            }
        }
    }
}

/// The lines that a reader sees behind the media line are the codec lines, the
/// two lines on telephone events, the direction, and the empty rest.
proof fn lemma_attributes_seen(port: u16, ip: Seq<char>, codecs: Seq<AudioCodec>)
    requires
        text::free_of(ip, '\n'),
    ensures
        ({
            let seen = sdp::sdp_lines(sdp::session_text(port, ip, codecs));
            let middle = sdp::all_codec_lines(codecs);
            let n = middle.len() as int;
            &&& seen.len() == n + 10
            &&& forall|i: int| 0 <= i < n ==> #[trigger] seen[6 + i] == middle[i]
            &&& seen[6 + n] == "a=rtpmap:101 telephone-event/8000"@
            &&& seen[7 + n] == "a=fmtp:101 0-16"@
            &&& seen[8 + n] == "a=sendrecv"@
            &&& seen[9 + n] == Seq::<char>::empty()
        }),
{
    let lines = sdp::session_lines(port, ip, codecs);
    let head = sdp::session_head(port, ip, codecs);
    let middle = sdp::all_codec_lines(codecs);
    let tail = sdp::session_tail();
    let n = middle.len() as int;
    lemma_head_clean(port, ip, codecs);
    lemma_all_codec_lines(codecs);
    lemma_tail_attributes();
    assert(clean(tail[0]) && clean(tail[1]) && clean(tail[2]));
    assert forall|i: int| 0 <= i < lines.len() implies clean(#[trigger] lines[i]) by {
        if i < 6 {
            assert(lines[i] == head[i]);
        } else if i < 6 + n {
            assert(lines[i] == middle[i - 6]);
        } else {
            assert(lines[i] == tail[i - 6 - n]);
        }
    }
    lemma_split_crlf(lines);
    let pieces = text::split(sdp::session_text(port, ip, codecs), '\n');
    let seen = sdp::sdp_lines(sdp::session_text(port, ip, codecs));
    assert forall|i: int| 0 <= i < n implies #[trigger] seen[6 + i] == middle[i] by {
        assert(solid(middle[i]));
        assert(lines[6 + i] == middle[i]);
        assert(pieces[6 + i] == lines[6 + i].push('\r'));
        text::lemma_trim_one(middle[i], '\r');
    }
    reveal_strlit("a=rtpmap:101 telephone-event/8000");
    reveal_strlit("a=fmtp:101 0-16");
    reveal_strlit("a=sendrecv");
    assert forall|i: int| 0 <= i < 3 implies seen[6 + n + i] == #[trigger] tail[i] by {
        assert(i == 0 || i == 1 || i == 2);
        assert(lines[6 + n + i] == tail[i]);
        assert(pieces[6 + n + i] == lines[6 + n + i].push('\r'));
        text::lemma_trim_one(tail[i], '\r');
    }
    assert(seen[6 + n] == tail[0]);
    assert(seen[6 + n + 1] == tail[1]);
    assert(seen[6 + n + 2] == tail[2]);
    assert(pieces[9 + n] == Seq::<char>::empty());
}

/// Every description says that audio flows in both directions: the lines read
/// from its text hold `a=sendrecv`, once, and no other direction, and the text
/// ends with that line.
pub proof fn descriptions_are_for_both_directions(
    port: u16,
    ip: Seq<char>,
    codecs: Seq<AudioCodec>,
)
    ensures
        sdp::session_text(port, ip, codecs).len() >= 12,
        sdp::session_text(port, ip, codecs).skip(
            sdp::session_text(port, ip, codecs).len() - 12,
        ) == "a=sendrecv\r\n"@,
        text::free_of(ip, '\n') ==> {
            let seen = sdp::sdp_lines(sdp::session_text(port, ip, codecs));
            &&& seen.contains("a=sendrecv"@)
            &&& forall|i: int, j: int|
                0 <= i < j < seen.len() ==> !(#[trigger] seen[i] == "a=sendrecv"@
                    && #[trigger] seen[j] == "a=sendrecv"@)
            &&& !seen.contains("a=recvonly"@)
            &&& !seen.contains("a=sendonly"@)
            &&& !seen.contains("a=inactive"@)
        },
{
    let all = sdp::session_text(port, ip, codecs);
    let lines = sdp::session_lines(port, ip, codecs);
    reveal_strlit("a=sendrecv\r\n");
    reveal_strlit("a=sendrecv");
    reveal_strlit("\r\n");
    sdp::lemma_with_crlf_push(lines.drop_last(), lines.last());
    assert(lines.drop_last().push(lines.last()) =~= lines);
    assert(lines.last() == "a=sendrecv"@);
    assert(all.skip(all.len() - 12) =~= "a=sendrecv\r\n"@);
    if text::free_of(ip, '\n') {
        let seen = sdp::sdp_lines(all);
        let n = sdp::all_codec_lines(codecs).len() as int;
        lemma_line_kinds(port, ip, codecs);
        lemma_attributes_seen(port, ip, codecs);
        reveal_strlit("a=recvonly");
        reveal_strlit("a=sendonly");
        reveal_strlit("a=inactive");
        assert(seen[8 + n] == "a=sendrecv"@);
        assert forall|i: int| 0 <= i < seen.len() implies (#[trigger] seen[i] == "a=sendrecv"@ ==> i
            == 8 + n) && seen[i] != "a=recvonly"@ && seen[i] != "a=sendonly"@ && seen[i]
            != "a=inactive"@ by {
            assert("a=sendrecv"@[2] == 's' && "a=recvonly"@[3] == 'e');
            assert("a=sendonly"@[2] == 's' && "a=inactive"@[2] == 'i');
            assert("a=sendrecv"@[6] == 'r' && "a=sendonly"@[6] == 'o');
            assert("a=sendrecv"@[0] == 'a' && "a=recvonly"@[0] == 'a' && "a=sendonly"@[0] == 'a'
                && "a=inactive"@[0] == 'a');
        }
    }
}

/// What kinds of lines a reader sees in a description.
proof fn lemma_line_kinds(port: u16, ip: Seq<char>, codecs: Seq<AudioCodec>)
    requires
        text::free_of(ip, '\n'),
    ensures
        ({
            let seen = sdp::sdp_lines(sdp::session_text(port, ip, codecs));
            let n = sdp::all_codec_lines(codecs).len() as int;
            &&& forall|i: int|
                0 <= i < 6 ==> (#[trigger] seen[i]).len() > 0 && seen[i][0] != 'a'
            &&& forall|i: int|
                6 <= i < seen.len() && i != 8 + n ==> (#[trigger] seen[i]).len() == 0
                    || seen[i].len() >= 4 && seen[i][0] == 'a' && (seen[i][2] == 'f' || seen[i][2]
                    == 'r' && seen[i][3] == 't')
        }),
{
    let seen = sdp::sdp_lines(sdp::session_text(port, ip, codecs));
    let head = sdp::session_head(port, ip, codecs);
    let middle = sdp::all_codec_lines(codecs);
    let n = middle.len() as int;
    lemma_session_lines(port, ip, codecs);
    lemma_head_clean(port, ip, codecs);
    lemma_attributes_seen(port, ip, codecs);
    lemma_all_codec_lines(codecs);
    assert forall|i: int| 0 <= i < 6 implies (#[trigger] seen[i]).len() > 0 && seen[i][0]
        != 'a' by {
        assert(i == 0 || i == 1 || i == 2 || i == 3 || i == 4 || i == 5);
        assert(clean(head[i]));
        assert(head[i].push('\r')[0] == head[i][0]);
        text::lemma_trim_keeps_first(head[i].push('\r'));
    }
    reveal_strlit("a=rtpmap:0 PCMU/8000");
    reveal_strlit("a=rtpmap:8 PCMA/8000");
    reveal_strlit("a=rtpmap:18 G729/8000");
    reveal_strlit("a=rtpmap:111 opus/48000/2");
    reveal_strlit("a=fmtp:111 useinbandfec=1");
    reveal_strlit("a=rtpmap:101 telephone-event/8000");
    reveal_strlit("a=fmtp:101 0-16");
    assert forall|i: int| 6 <= i < seen.len() && i != 8 + n implies (#[trigger] seen[i]).len() == 0
        || seen[i].len() >= 4 && seen[i][0] == 'a' && (seen[i][2] == 'f' || seen[i][2] == 'r'
        && seen[i][3] == 't') by {
        if i < 6 + n {
            assert(seen[6 + (i - 6)] == middle[i - 6]);
            let k = choose|k: int|
                0 <= k < codecs.len() && #[trigger] sdp::codec_lines(codecs[k]).contains(
                    middle[i - 6],
                );
            lemma_codec_lines_spelled(codecs[k]);
            let j = choose|j: int|
                0 <= j < sdp::codec_lines(codecs[k]).len() && sdp::codec_lines(codecs[k])[j]
                    == middle[i - 6];
            assert(j == 0 || j == 1);
        } else {
            assert(i == 6 + n || i == 7 + n || i == 9 + n);
        }
    }
}

/// Every description names each of its codecs by the attributes that belong to
/// it, and no others; telephone events are always described. Nothing else
/// stands behind the media line.
pub proof fn descriptions_name_their_codecs(port: u16, ip: Seq<char>, codecs: Seq<AudioCodec>)
    requires
        text::free_of(ip, '\n'),
    ensures
        ({
            let seen = sdp::sdp_lines(sdp::session_text(port, ip, codecs));
            &&& seen.contains("a=rtpmap:0 PCMU/8000"@) == codecs.contains(AudioCodec::Pcmu)
            &&& seen.contains("a=rtpmap:8 PCMA/8000"@) == codecs.contains(AudioCodec::Pcma)
            &&& seen.contains("a=rtpmap:18 G729/8000"@) == codecs.contains(AudioCodec::G729)
            &&& seen.contains("a=rtpmap:111 opus/48000/2"@) == codecs.contains(AudioCodec::Opus)
            &&& seen.contains("a=fmtp:111 useinbandfec=1"@) == codecs.contains(AudioCodec::Opus)
            &&& seen.contains("a=rtpmap:101 telephone-event/8000"@)
            &&& seen.contains("a=fmtp:101 0-16"@)
            &&& forall|i: int|
                6 <= i < seen.len() ==> {
                    ||| #[trigger] seen[i] == "a=rtpmap:0 PCMU/8000"@
                    ||| seen[i] == "a=rtpmap:8 PCMA/8000"@
                    ||| seen[i] == "a=rtpmap:18 G729/8000"@
                    ||| seen[i] == "a=rtpmap:111 opus/48000/2"@
                    ||| seen[i] == "a=fmtp:111 useinbandfec=1"@
                    ||| seen[i] == "a=rtpmap:101 telephone-event/8000"@
                    ||| seen[i] == "a=fmtp:101 0-16"@
                    ||| seen[i] == "a=sendrecv"@
                    ||| seen[i].len() == 0
                }
        }),
{
    let seen = sdp::sdp_lines(sdp::session_text(port, ip, codecs));
    let middle = sdp::all_codec_lines(codecs);
    let n = middle.len() as int;
    lemma_line_kinds(port, ip, codecs);
    lemma_attributes_seen(port, ip, codecs);
    lemma_all_codec_lines(codecs);
    assert forall|i: int| 6 <= i < 6 + n implies exists|k: int|
        0 <= k < codecs.len() && #[trigger] sdp::codec_lines(codecs[k]).contains(
            #[trigger] seen[i],
        ) by {
        assert(seen[6 + (i - 6)] == middle[i - 6]);
        let k = choose|k: int|
            0 <= k < codecs.len() && #[trigger] sdp::codec_lines(codecs[k]).contains(
                middle[i - 6],
            );
        assert(sdp::codec_lines(codecs[k]).contains(seen[i]));
    }
    lemma_codec_lines_spelled(AudioCodec::Pcmu);
    lemma_codec_lines_spelled(AudioCodec::Pcma);
    lemma_codec_lines_spelled(AudioCodec::G729);
    lemma_codec_lines_spelled(AudioCodec::Opus);
    lemma_codec_line_seen(port, ip, codecs, AudioCodec::Pcmu, 0);
    lemma_codec_line_seen(port, ip, codecs, AudioCodec::Pcma, 0);
    lemma_codec_line_seen(port, ip, codecs, AudioCodec::G729, 0);
    lemma_codec_line_seen(port, ip, codecs, AudioCodec::Opus, 0);
    lemma_codec_line_seen(port, ip, codecs, AudioCodec::Opus, 1);
    assert(seen[6 + n] == "a=rtpmap:101 telephone-event/8000"@);
    assert(seen[7 + n] == "a=fmtp:101 0-16"@);
    assert forall|i: int| 6 <= i < seen.len() implies {
        ||| #[trigger] seen[i] == "a=rtpmap:0 PCMU/8000"@
        ||| seen[i] == "a=rtpmap:8 PCMA/8000"@
        ||| seen[i] == "a=rtpmap:18 G729/8000"@
        ||| seen[i] == "a=rtpmap:111 opus/48000/2"@
        ||| seen[i] == "a=fmtp:111 useinbandfec=1"@
        ||| seen[i] == "a=rtpmap:101 telephone-event/8000"@
        ||| seen[i] == "a=fmtp:101 0-16"@
        ||| seen[i] == "a=sendrecv"@
        ||| seen[i].len() == 0
    } by {
        if i < 6 + n {
            let k = choose|k: int|
                0 <= k < codecs.len() && #[trigger] sdp::codec_lines(codecs[k]).contains(seen[i]);
            lemma_codec_lines_spelled(codecs[k]);
        } else {
            assert(i == 6 + n || i == 7 + n || i == 8 + n || i == 9 + n);
        }
    }
}

/// The spellings of all attribute lines differ.
proof fn lemma_spellings_differ()
    ensures
        "a=rtpmap:0 PCMU/8000"@[9] == '0',
        "a=rtpmap:8 PCMA/8000"@[9] == '8',
        "a=rtpmap:18 G729/8000"@[10] == '8',
        "a=rtpmap:18 G729/8000"@[9] == '1',
        "a=rtpmap:111 opus/48000/2"@[9] == '1',
        "a=rtpmap:111 opus/48000/2"@[10] == '1',
        "a=rtpmap:101 telephone-event/8000"@[9] == '1',
        "a=rtpmap:101 telephone-event/8000"@[10] == '0',
        "a=rtpmap:0 PCMU/8000"@[2] == 'r',
        "a=rtpmap:8 PCMA/8000"@[2] == 'r',
        "a=rtpmap:18 G729/8000"@[2] == 'r',
        "a=rtpmap:111 opus/48000/2"@[2] == 'r',
        "a=rtpmap:101 telephone-event/8000"@[2] == 'r',
        "a=fmtp:111 useinbandfec=1"@[2] == 'f',
        "a=fmtp:111 useinbandfec=1"@[8] == '1',
        "a=fmtp:101 0-16"@[2] == 'f',
        "a=fmtp:101 0-16"@[8] == '0',
        "a=sendrecv"@[2] == 's',
        "a=rtpmap:0 PCMU/8000"@[0] == 'a',
        "a=rtpmap:8 PCMA/8000"@[0] == 'a',
        "a=rtpmap:18 G729/8000"@[0] == 'a',
        "a=rtpmap:111 opus/48000/2"@[0] == 'a',
        "a=fmtp:111 useinbandfec=1"@[0] == 'a',
        "a=rtpmap:0 PCMU/8000"@.len() > 0,
        "a=rtpmap:8 PCMA/8000"@.len() > 0,
        "a=rtpmap:18 G729/8000"@.len() > 0,
        "a=rtpmap:111 opus/48000/2"@.len() > 0,
        "a=fmtp:111 useinbandfec=1"@.len() > 0,
{
    reveal_strlit("a=rtpmap:0 PCMU/8000");
    reveal_strlit("a=rtpmap:8 PCMA/8000");
    reveal_strlit("a=rtpmap:18 G729/8000");
    reveal_strlit("a=rtpmap:111 opus/48000/2");
    reveal_strlit("a=rtpmap:101 telephone-event/8000");
    reveal_strlit("a=fmtp:111 useinbandfec=1");
    reveal_strlit("a=fmtp:101 0-16");
    reveal_strlit("a=sendrecv");
}

/// A line of a codec is seen exactly if the codec is in the list.
proof fn lemma_codec_line_seen(
    port: u16,
    ip: Seq<char>,
    codecs: Seq<AudioCodec>,
    codec: AudioCodec,
    j: int,
)
    requires
        text::free_of(ip, '\n'),
        0 <= j < sdp::codec_lines(codec).len(),
    ensures
        sdp::sdp_lines(sdp::session_text(port, ip, codecs)).contains(sdp::codec_lines(codec)[j])
            == codecs.contains(codec),
{
    let seen = sdp::sdp_lines(sdp::session_text(port, ip, codecs));
    let middle = sdp::all_codec_lines(codecs);
    let n = middle.len() as int;
    let line = sdp::codec_lines(codec)[j];
    lemma_line_kinds(port, ip, codecs);
    lemma_attributes_seen(port, ip, codecs);
    lemma_all_codec_lines(codecs);
    lemma_codec_lines_spelled(codec);
    lemma_spellings_differ();
    if codecs.contains(codec) {
        let k = choose|k: int| 0 <= k < codecs.len() && codecs[k] == codec;
        assert(middle.contains(sdp::codec_lines(codecs[k])[j]));
        let m = choose|m: int| 0 <= m < middle.len() && middle[m] == line;
        assert(seen[6 + m] == middle[m]);
    }
    if seen.contains(line) {
        let i = choose|i: int| 0 <= i < seen.len() && seen[i] == line;
        assert(line[0] == 'a' && line.len() > 0);
        assert(i >= 6);
        if i < 6 + n {
            assert(seen[6 + (i - 6)] == middle[i - 6]);
            let k = choose|k: int|
                0 <= k < codecs.len() && #[trigger] sdp::codec_lines(codecs[k]).contains(
                    middle[i - 6],
                );
            lemma_codec_lines_spelled(codecs[k]);
            assert(codecs[k] == codec);
        } else {
            assert(i == 6 + n || i == 7 + n || i == 8 + n || i == 9 + n);
            assert(false);
        }
    }
}

/// Every description opens with the version, the address of its origin, its
/// name, the address where media is received and the time; its media line
/// gives the port, then the payload type of each codec in order of preference,
/// then that of telephone events.
pub proof fn descriptions_announce_address_port_and_formats(
    port: u16,
    ip: Seq<char>,
    codecs: Seq<AudioCodec>,
)
    requires
        plain_address(ip),
    ensures
        ({
            let seen = sdp::sdp_lines(sdp::session_text(port, ip, codecs));
            let formats = text::words(seen[5]);
            &&& seen[0] == "v=0"@
            &&& seen[1] == "o=aria 0 0 IN IP4 "@ + ip
            &&& seen[2] == "s=Aria Mobile"@
            &&& seen[3] == "c=IN IP4 "@ + ip
            &&& seen[4] == "t=0 0"@
            &&& formats.len() == codecs.len() + 4
            &&& formats[0] == "m=audio"@
            &&& formats[1] == text::decimal(port as nat)
            &&& formats[2] == "RTP/AVP"@
            &&& formats.last() == "101"@
            &&& forall|i: int|
                0 <= i < codecs.len() ==> #[trigger] formats[3 + i] == match codecs[i] {
                    AudioCodec::Pcmu => "0"@,
                    AudioCodec::Pcma => "8"@,
                    AudioCodec::G729 => "18"@,
                    AudioCodec::Opus => "111"@,
                }
        }),
{
    let seen = sdp::sdp_lines(sdp::session_text(port, ip, codecs));
    let head = sdp::session_head(port, ip, codecs);
    let media = sdp::media_text(port, codecs);
    lemma_session_lines(port, ip, codecs);
    lemma_head_clean(port, ip, codecs);
    lemma_media_words(port, codecs);
    reveal_strlit("v=0");
    reveal_strlit("o=aria 0 0 IN IP4 ");
    reveal_strlit("s=Aria Mobile");
    reveal_strlit("c=IN IP4 ");
    reveal_strlit("t=0 0");
    reveal_strlit("m=audio ");
    reveal_strlit(" 101");
    assert(head[1].last() == ip.last());
    assert(head[3].last() == ip.last());
    assert(media.last() == '1');
    assert forall|i: int| 0 <= i < 6 implies #[trigger] seen[i] == head[i] by {
        assert(i == 0 || i == 1 || i == 2 || i == 3 || i == 4 || i == 5);
        assert(clean(head[i]));
        text::lemma_trim_one(head[i], '\r');
    }
    assert(seen[5] == media);
    let formats = text::words(media);
    assert forall|i: int| 0 <= i < codecs.len() implies #[trigger] formats[3 + i]
        == match codecs[i] {
        AudioCodec::Pcmu => "0"@,
        AudioCodec::Pcma => "8"@,
        AudioCodec::G729 => "18"@,
        AudioCodec::Opus => "111"@,
    } by {
        assert(formats[3 + i] == payload_words(codecs)[i]);
        lemma_codec_for(codecs[i]);
        lemma_formats_spelled();
    }
}

proof fn lemma_formats_spelled()
    ensures
        text::decimal(0) == "0"@,
        text::decimal(8) == "8"@,
        text::decimal(18) == "18"@,
        text::decimal(111) == "111"@,
{
    reveal_strlit("0");
    reveal_strlit("8");
    reveal_strlit("18");
    reveal_strlit("111");
    reveal_with_fuel(text::decimal, 4);
    assert(text::decimal(0) =~= "0"@);
    assert(text::decimal(8) =~= "8"@);
    assert(text::decimal(18) =~= "18"@);
    assert(text::decimal(111) =~= "111"@);
}

// ── Reading any description ─────────────────────────────────────────────────

/// Of any description, the last IPv4 connection line gives the address, and
/// the last audio line with a format gives the port and, by its first format,
/// the codec. Port and format have to be readable.
pub proof fn last_connection_and_audio_line_count(sdp: Seq<char>, c: int, m: int)
    requires
        ({
            let lines = sdp::sdp_lines(sdp);
            &&& 0 <= c < lines.len()
            &&& "c=IN IP4 "@.is_prefix_of(lines[c])
            &&& forall|i: int|
                c < i < lines.len() ==> !"c=IN IP4 "@.is_prefix_of(#[trigger] lines[i])
            &&& 0 <= m < lines.len()
            &&& "m=audio "@.is_prefix_of(lines[m])
            &&& text::words(lines[m]).len() >= 4
            &&& forall|i: int|
                m < i < lines.len() ==> !("m=audio "@.is_prefix_of(#[trigger] lines[i])
                    && text::words(lines[i]).len() >= 4)
        }),
    ensures
        ({
            let lines = sdp::sdp_lines(sdp);
            let address = text::trim(lines[c].skip(9));
            let port = text::parse_number(text::words(lines[m])[1], 65535);
            let format = text::words(lines[m])[3];
            &&& port is None ==> sdp::remote_of(sdp) is None
            &&& port matches Some(port) ==> {
                &&& format == "0"@ ==> sdp::remote_of(sdp) == Some(
                    (address, port, AudioCodec::Pcmu),
                )
                &&& format == "8"@ ==> sdp::remote_of(sdp) == Some(
                    (address, port, AudioCodec::Pcma),
                )
                &&& format == "18"@ ==> sdp::remote_of(sdp) == Some(
                    (address, port, AudioCodec::G729),
                )
                &&& format == "111"@ ==> sdp::remote_of(sdp) == Some(
                    (address, port, AudioCodec::Opus),
                )
            }
            &&& format != "0"@ && format != "8"@ && format != "18"@ && format != "111"@
                ==> sdp::remote_of(sdp) is None
        }),
{
    let lines = sdp::sdp_lines(sdp);
    lemma_formats_spelled();
    lemma_codec_for(AudioCodec::Pcmu);
    lemma_codec_for(AudioCodec::Pcma);
    lemma_codec_for(AudioCodec::G729);
    lemma_codec_for(AudioCodec::Opus);
    assert forall|i: int| c < i < lines.len() implies !(|line: Seq<char>| sdp::is_connection(line))(
        #[trigger] lines[i],
    ) by {}
    assert forall|i: int| m < i < lines.len() implies !(|line: Seq<char>| sdp::is_media(line))(
        #[trigger] lines[i],
    ) by {}
    lemma_last_where_at(lines, |line: Seq<char>| sdp::is_connection(line), c);
    lemma_last_where_at(lines, |line: Seq<char>| sdp::is_media(line), m);
}

proof fn lemma_last_where_none(lines: Seq<Seq<char>>, wanted: spec_fn(Seq<char>) -> bool)
    requires
        forall|j: int| 0 <= j < lines.len() ==> !wanted(#[trigger] lines[j]),
    ensures
        sdp::last_where(lines, wanted) is None,
    decreases lines.len(),
{
    if lines.len() > 0 {
        assert(!wanted(lines[lines.len() - 1]));
        lemma_last_where_none(lines.drop_last(), wanted);
    }
}

/// A description that has no IPv4 connection line, or no audio line with a
/// format, cannot be read.
pub proof fn incomplete_descriptions_are_not_read(sdp: Seq<char>)
    requires
        ({
            let lines = sdp::sdp_lines(sdp);
            ||| forall|i: int|
                0 <= i < lines.len() ==> !"c=IN IP4 "@.is_prefix_of(#[trigger] lines[i])
            ||| forall|i: int|
                0 <= i < lines.len() ==> !("m=audio "@.is_prefix_of(#[trigger] lines[i])
                    && text::words(lines[i]).len() >= 4)
        }),
    ensures
        sdp::remote_of(sdp) is None,
{
    let lines = sdp::sdp_lines(sdp);
    if forall|i: int| 0 <= i < lines.len() ==> !"c=IN IP4 "@.is_prefix_of(#[trigger] lines[i]) {
        lemma_last_where_none(lines, |line: Seq<char>| sdp::is_connection(line));
    } else {
        lemma_last_where_none(lines, |line: Seq<char>| sdp::is_media(line));
    }
}

/// Of any offer, the first audio line is negotiated about: the codec is the
/// first of our preferences whose payload type number is among its formats.
pub proof fn first_offered_preference_wins(
    offer: Seq<char>,
    prefs: Seq<AudioCodec>,
    m: int,
    k: int,
    f: int,
)
    requires
        ({
            let lines = sdp::sdp_lines(offer);
            let formats = text::words(lines[m]);
            &&& 0 <= m < lines.len()
            &&& "m=audio"@.is_prefix_of(lines[m])
            &&& forall|i: int| 0 <= i < m ==> !"m=audio"@.is_prefix_of(#[trigger] lines[i])
            &&& 0 <= k < prefs.len()
            &&& 3 <= f < formats.len()
            &&& text::parse_number(formats[f], 255) == Some(
                types::codec_payload_type(prefs[k]) as nat,
            )
            &&& forall|j: int, i: int|
                0 <= j < k && 3 <= i < formats.len() ==> text::parse_number(
                    #[trigger] formats[i],
                    255,
                ) != Some(types::codec_payload_type(#[trigger] prefs[j]) as nat)
        }),
    ensures
        sdp::negotiated(offer, prefs) == prefs[k],
    decreases k,
{
    let lines = sdp::sdp_lines(offer);
    let formats = text::words(lines[m]);
    lemma_first_audio_at(lines, m);
    let first = types::codec_payload_type(prefs[0]) as nat;
    if k == 0 {
        assert(sdp::lists_format(lines[m], first));
    } else {
        assert(!sdp::lists_format(lines[m], first)) by {
            if sdp::lists_format(lines[m], first) {
                let i = choose|i: int|
                    3 <= i < formats.len() && #[trigger] text::parse_number(formats[i], 0xFF)
                        == Some(first);
                assert(text::parse_number(formats[i], 255) != Some(
                    types::codec_payload_type(prefs[0]) as nat,
                ));
            }
        }
        let rest = prefs.skip(1);
        assert forall|j: int, i: int| 0 <= j < k - 1 && 3 <= i < formats.len() implies
            text::parse_number(#[trigger] formats[i], 255) != Some(
            types::codec_payload_type(#[trigger] rest[j]) as nat,
        ) by {
            assert(rest[j] == prefs[j + 1]);
        }
        first_offered_preference_wins(offer, rest, m, k - 1, f);
    }
}

/// If none of our preferences is among the formats of the first audio line, or
/// there is no audio line at all, the codec is PCMU.
pub proof fn without_common_codec_pcmu_is_used(offer: Seq<char>, prefs: Seq<AudioCodec>, m: int)
    requires
        ({
            let lines = sdp::sdp_lines(offer);
            let formats = text::words(lines[m]);
            ||| forall|i: int| 0 <= i < lines.len() ==> !"m=audio"@.is_prefix_of(
                #[trigger] lines[i],
            )
            ||| {
                &&& 0 <= m < lines.len()
                &&& "m=audio"@.is_prefix_of(lines[m])
                &&& forall|i: int| 0 <= i < m ==> !"m=audio"@.is_prefix_of(#[trigger] lines[i])
                &&& forall|j: int, i: int|
                    0 <= j < prefs.len() && 3 <= i < formats.len() ==> text::parse_number(
                        #[trigger] formats[i],
                        255,
                    ) != Some(types::codec_payload_type(#[trigger] prefs[j]) as nat)
            }
        }),
    ensures
        sdp::negotiated(offer, prefs) == AudioCodec::Pcmu,
    decreases prefs.len(),
{
    let lines = sdp::sdp_lines(offer);
    let formats = text::words(lines[m]);
    if prefs.len() > 0 {
        let first = types::codec_payload_type(prefs[0]) as nat;
        let rest = prefs.skip(1);
        if forall|i: int| 0 <= i < lines.len() ==> !"m=audio"@.is_prefix_of(#[trigger] lines[i]) {
            lemma_no_audio(lines);
        } else {
            lemma_first_audio_at(lines, m);
            assert(!sdp::lists_format(lines[m], first)) by {
                if sdp::lists_format(lines[m], first) {
                    let i = choose|i: int|
                        3 <= i < formats.len() && #[trigger] text::parse_number(formats[i], 0xFF)
                            == Some(first);
                    assert(text::parse_number(formats[i], 255) != Some(
                        types::codec_payload_type(prefs[0]) as nat,
                    ));
                }
            }
            assert forall|j: int, i: int| 0 <= j < rest.len() && 3 <= i < formats.len() implies
                text::parse_number(#[trigger] formats[i], 255) != Some(
                types::codec_payload_type(#[trigger] rest[j]) as nat,
            ) by {
                assert(rest[j] == prefs[j + 1]);
            }
        }
        without_common_codec_pcmu_is_used(offer, rest, m);
    }
}

proof fn lemma_no_audio(lines: Seq<Seq<char>>)
    requires
        forall|i: int| 0 <= i < lines.len() ==> !"m=audio"@.is_prefix_of(#[trigger] lines[i]),
    ensures
        sdp::first_audio(lines) is None,
    decreases lines.len(),
{
    if lines.len() > 0 {
        let rest = lines.skip(1);
        assert(!"m=audio"@.is_prefix_of(lines[0]));
        assert forall|i: int| 0 <= i < rest.len() implies !"m=audio"@.is_prefix_of(
            #[trigger] rest[i],
        ) by {
            assert(rest[i] == lines[i + 1]);
        }
        lemma_no_audio(rest);
    }
}

/// Lines are read alike whether they end with LF or with CR LF, and whatever
/// whitespace stands around them.
pub proof fn line_endings_do_not_matter(line: Seq<char>, rest: Seq<char>)
    requires
        text::free_of(line, '\n'),
        line.len() > 0,
        !text::is_space(line[0]),
        !text::is_space(line.last()),
    ensures
        sdp::sdp_lines(line + seq!['\n'] + rest) == seq![line] + sdp::sdp_lines(rest),
        sdp::sdp_lines(line.push('\r') + seq!['\n'] + rest) == seq![line] + sdp::sdp_lines(rest),
        sdp::sdp_lines(line) == seq![line],
{
    text::lemma_trim_one(line, '\r');
    let cr = line.push('\r');
    assert(text::free_of(cr, '\n')) by {
        assert forall|i: int| 0 <= i < cr.len() implies #[trigger] cr[i] != '\n' by {
            if i < line.len() {
                assert(cr[i] == line[i]);
            }
        }
    }
    text::lemma_split_first(line, '\n', rest);
    text::lemma_split_first(cr, '\n', rest);
    text::lemma_split_whole(line, '\n');
    assert(sdp::sdp_lines(line + seq!['\n'] + rest) =~= seq![line] + sdp::sdp_lines(rest));
    assert(sdp::sdp_lines(cr + seq!['\n'] + rest) =~= seq![line] + sdp::sdp_lines(rest));
    assert(sdp::sdp_lines(line) =~= seq![line]);
}

/// An offer lists the codecs that the caller prefers, as they stand, or the
/// default ones; the session starts with the first of them.
pub proof fn offers_list_the_preferences(prefs: Seq<AudioCodec>)
    ensures
        prefs.len() > 0 ==> sdp::offered_codecs(prefs) == prefs,
        sdp::offered_codecs(Seq::empty()) == seq![
            AudioCodec::Pcmu,
            AudioCodec::Pcma,
            AudioCodec::Opus,
        ],
        sdp::offered_codecs(prefs).len() > 0,
{
}

/// Every line of a description ends with CR LF, and nothing follows the last
/// one.
pub proof fn lines_end_with_cr_lf(port: u16, ip: Seq<char>, codecs: Seq<AudioCodec>, i: int)
    requires
        text::free_of(ip, '\n'),
    ensures
        ({
            let pieces = text::split(sdp::session_text(port, ip, codecs), '\n');
            &&& pieces.last() == Seq::<char>::empty()
            &&& 0 <= i < pieces.len() - 1 ==> pieces[i].len() > 0 && pieces[i].last() == '\r'
        }),
{
    let lines = sdp::session_lines(port, ip, codecs);
    let head = sdp::session_head(port, ip, codecs);
    let tail = sdp::session_tail();
    let middle = sdp::all_codec_lines(codecs);
    lemma_head_clean(port, ip, codecs);
    lemma_all_codec_lines_attributes(codecs);
    lemma_tail_attributes();
    assert forall|j: int| 0 <= j < lines.len() implies text::free_of(
        #[trigger] lines[j],
        '\n',
    ) by {
        if j < 6 {
            assert(lines[j] == head[j]);
            assert(clean(head[j]));
        } else if j < 6 + middle.len() {
            assert(lines[j] == middle[j - 6]);
        } else {
            assert(lines[j] == tail[j - 6 - middle.len()]);
        }
    }
    lemma_split_crlf(lines);
    let pieces = text::split(sdp::session_text(port, ip, codecs), '\n');
    assert(pieces.last() == pieces[lines.len() as int]);
    if 0 <= i < pieces.len() - 1 {
        assert(pieces[i] == lines[i].push('\r'));
    }
}

/// Whatever stands before a line break is one line, without the whitespace
/// around it.
pub proof fn lines_are_trimmed(line: Seq<char>, rest: Seq<char>)
    requires
        text::free_of(line, '\n'),
    ensures
        sdp::sdp_lines(line + seq!['\n'] + rest) == seq![text::trim(line)] + sdp::sdp_lines(rest),
        sdp::sdp_lines(line) == seq![text::trim(line)],
{
    text::lemma_split_first(line, '\n', rest);
    text::lemma_split_whole(line, '\n');
    assert(sdp::sdp_lines(line + seq!['\n'] + rest) =~= seq![text::trim(line)] + sdp::sdp_lines(
        rest,
    ));
    assert(sdp::sdp_lines(line) =~= seq![text::trim(line)]);
}

/// What is read of a description is handed over as it was read.
pub proof fn remotes_are_handed_over_as_read(remote: sdp::SdpRemote)
    ensures
        remote@ == (remote.ip@, remote.port as nat, remote.codec),
{
}

/// The codec of a payload type number is the one that has this number.
pub proof fn formats_name_their_codec(format: Seq<char>, codec: AudioCodec)
    ensures
        sdp::codec_for(format) == Some(codec) <==> format == match codec {
            AudioCodec::Pcmu => "0"@,
            AudioCodec::Pcma => "8"@,
            AudioCodec::G729 => "18"@,
            AudioCodec::Opus => "111"@,
        },
{
    lemma_formats_spelled();
    lemma_codec_for(codec);
}

/// How often Opus stands in a list. It takes two lines in a description, every
/// other codec one.
pub open spec fn opus_count(codecs: Seq<AudioCodec>) -> nat
    decreases codecs.len(),
{
    if codecs.len() == 0 {
        0
    } else {
        opus_count(codecs.drop_last()) + if codecs.last() == AudioCodec::Opus {
            1nat
        } else {
            0
        }
    }
}

proof fn lemma_codec_line_places(codecs: Seq<AudioCodec>, i: int)
    requires
        0 <= i < codecs.len(),
    ensures
        ({
            let all = sdp::all_codec_lines(codecs);
            let at = i + opus_count(codecs.take(i));
            &&& all.len() == codecs.len() + opus_count(codecs)
            &&& 0 <= at < all.len()
            &&& all[at] == sdp::codec_lines(codecs[i])[0]
            &&& codecs[i] == AudioCodec::Opus ==> at + 1 < all.len() && all[at + 1]
                == sdp::codec_lines(codecs[i])[1]
        }),
    decreases codecs.len(),
{
    let init = codecs.drop_last();
    let a = sdp::all_codec_lines(init);
    let b = sdp::codec_lines(codecs.last());
    let all = sdp::all_codec_lines(codecs);
    let at = i + opus_count(codecs.take(i));
    lemma_codec_line_count(init);
    lemma_codec_lines_spelled(codecs.last());
    if i < init.len() {
        lemma_codec_line_places(init, i);
        assert(init.take(i) =~= codecs.take(i));
        assert(init[i] == codecs[i]);
        assert(all[at] == a[at]);
        if codecs[i] == AudioCodec::Opus {
            assert(all[at + 1] == a[at + 1]);
        }
    } else {
        assert(codecs.take(i) =~= init);
        assert(all[at] == b[0]);
        if codecs[i] == AudioCodec::Opus {
            assert(all[at + 1] == b[1]);
        }
    }
}

proof fn lemma_codec_line_count(codecs: Seq<AudioCodec>)
    ensures
        sdp::all_codec_lines(codecs).len() == codecs.len() + opus_count(codecs),
    decreases codecs.len(),
{
    if codecs.len() > 0 {
        lemma_codec_line_count(codecs.drop_last());
        lemma_codec_lines_spelled(codecs.last());
    }
}

/// The codecs of a description are described in the order in which they are
/// listed, one by one.
pub proof fn codecs_are_described_in_order(
    port: u16,
    ip: Seq<char>,
    codecs: Seq<AudioCodec>,
    i: int,
)
    requires
        text::free_of(ip, '\n'),
        0 <= i < codecs.len(),
    ensures
        ({
            let seen = sdp::sdp_lines(sdp::session_text(port, ip, codecs));
            let at = 6 + i + opus_count(codecs.take(i));
            &&& seen.len() == 10 + codecs.len() + opus_count(codecs)
            &&& seen[at] == match codecs[i] {
                AudioCodec::Pcmu => "a=rtpmap:0 PCMU/8000"@,
                AudioCodec::Pcma => "a=rtpmap:8 PCMA/8000"@,
                AudioCodec::G729 => "a=rtpmap:18 G729/8000"@,
                AudioCodec::Opus => "a=rtpmap:111 opus/48000/2"@,
            }
            &&& codecs[i] == AudioCodec::Opus ==> seen[at + 1] == "a=fmtp:111 useinbandfec=1"@
        }),
{
    let seen = sdp::sdp_lines(sdp::session_text(port, ip, codecs));
    let all = sdp::all_codec_lines(codecs);
    let at = i + opus_count(codecs.take(i));
    lemma_attributes_seen(port, ip, codecs);
    lemma_codec_line_places(codecs, i);
    lemma_codec_lines_spelled(codecs[i]);
    assert(seen[6 + at] == all[at]);
    if codecs[i] == AudioCodec::Opus {
        assert(seen[6 + (at + 1)] == all[at + 1]);
    }
}

} // verus!
