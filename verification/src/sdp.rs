//! SDP offer/answer generation, parsing and codec negotiation.

use vstd::prelude::*;
use vstd::string::*;

use crate::text;
use crate::types;
use crate::types::AudioCodec;

verus! {

// ── Generation ──────────────────────────────────────────────────────────────

/// The lines of a text in which each line ends with CR LF.
pub open spec fn with_crlf(lines: Seq<Seq<char>>) -> Seq<char>
    decreases lines.len(),
{
    if lines.len() == 0 {
        Seq::empty()
    } else {
        lines[0] + "\r\n"@ + with_crlf(lines.skip(1))
    }
}

/// Payload type numbers of `codecs`, each preceded by a space.
pub open spec fn payload_list(codecs: Seq<AudioCodec>) -> Seq<char>
    decreases codecs.len(),
{
    if codecs.len() == 0 {
        Seq::empty()
    } else {
        payload_list(codecs.drop_last()) + " "@ + text::decimal(
            types::codec_payload_type(codecs.last()) as nat,
        )
    }
}

/// The audio media line for `codecs` and telephone events.
pub open spec fn media_text(port: u16, codecs: Seq<AudioCodec>) -> Seq<char> {
    "m=audio "@ + text::decimal(port as nat) + " RTP/AVP"@ + payload_list(codecs) + " 101"@
}

/// The attribute lines that describe one codec.
pub open spec fn codec_lines(codec: AudioCodec) -> Seq<Seq<char>> {
    let pt = text::decimal(types::codec_payload_type(codec) as nat);
    let map = "a=rtpmap:"@ + pt + " "@ + types::codec_name(codec) + "/"@ + text::decimal(
        types::codec_clock_rate(codec) as nat,
    );
    if codec == AudioCodec::Opus {
        seq![map + "/2"@, "a=fmtp:"@ + pt + " useinbandfec=1"@]
    } else {
        seq![map]
    }
}

/// The attribute lines of all `codecs`, in order.
pub open spec fn all_codec_lines(codecs: Seq<AudioCodec>) -> Seq<Seq<char>>
    decreases codecs.len(),
{
    if codecs.len() == 0 {
        Seq::empty()
    } else {
        all_codec_lines(codecs.drop_last()) + codec_lines(codecs.last())
    }
}

/// The lines up to and including the media line.
pub open spec fn session_head(port: u16, ip: Seq<char>, codecs: Seq<AudioCodec>) -> Seq<
    Seq<char>,
> {
    seq![
        "v=0"@,
        "o=aria 0 0 IN IP4 "@ + ip,
        "s=Aria Mobile"@,
        "c=IN IP4 "@ + ip,
        "t=0 0"@,
        media_text(port, codecs),
    ]
}

/// The lines after the codec attributes.
pub open spec fn session_tail() -> Seq<Seq<char>> {
    seq!["a=rtpmap:101 telephone-event/8000"@, "a=fmtp:101 0-16"@, "a=sendrecv"@]
}

/// All lines of a session description that offers `codecs` at `ip:port`.
pub open spec fn session_lines(port: u16, ip: Seq<char>, codecs: Seq<AudioCodec>) -> Seq<
    Seq<char>,
> {
    session_head(port, ip, codecs) + all_codec_lines(codecs) + session_tail()
}

/// The text of a session description that offers `codecs` at `ip:port`.
pub open spec fn session_text(port: u16, ip: Seq<char>, codecs: Seq<AudioCodec>) -> Seq<char> {
    with_crlf(session_lines(port, ip, codecs))
}

proof fn lemma_with_crlf_append(a: Seq<Seq<char>>, b: Seq<Seq<char>>)
    ensures
        with_crlf(a + b) == with_crlf(a) + with_crlf(b),
    decreases a.len(),
{
    if a.len() == 0 {
        assert(a + b =~= b);
        assert(with_crlf(a) + with_crlf(b) =~= with_crlf(b));
    } else {
        assert((a + b).skip(1) =~= a.skip(1) + b);
        lemma_with_crlf_append(a.skip(1), b);
        assert(with_crlf(a + b) =~= with_crlf(a) + with_crlf(b));
    }
}

/// One line more is that line and its line ending behind the text.
pub proof fn lemma_with_crlf_push(a: Seq<Seq<char>>, line: Seq<char>)
    ensures
        with_crlf(a.push(line)) == with_crlf(a) + line + "\r\n"@,
{
    lemma_with_crlf_append(a, seq![line]);
    assert(a.push(line) =~= a + seq![line]);
    assert(seq![line].skip(1) =~= Seq::<Seq<char>>::empty());
    reveal_with_fuel(with_crlf, 2);
    assert(with_crlf(seq![line]) =~= line + "\r\n"@);
    assert(with_crlf(a) + (line + "\r\n"@) =~= with_crlf(a) + line + "\r\n"@);
}

/// Appends one line and its line ending.
fn push_line(out: &mut String, line: &str)
    ensures
        final(out)@ == old(out)@ + line@ + "\r\n"@,
{
    out.append(line);
    out.append("\r\n");
}

/// The audio media line.
fn media_line(port: u16, codecs: &[AudioCodec]) -> (r: String)
    ensures
        r@ == media_text(port, codecs@),
{
    let mut line = "m=audio ".to_owned();
    text::push_decimal(&mut line, port as u64);
    line.append(" RTP/AVP");
    let ghost start = line@;
    let mut i: usize = 0;
    assert(start + payload_list(codecs@.take(0)) =~= start);
    while i < codecs.len()
        invariant
            i <= codecs@.len(),
            line@ == start + payload_list(codecs@.take(i as int)),
        decreases codecs@.len() - i,
    {
        let ghost before = line@;
        line.append(" ");
        text::push_decimal(&mut line, codecs[i].payload_type() as u64);
        proof {
            let next = codecs@.take(i + 1);
            assert(next.drop_last() =~= codecs@.take(i as int));
            assert(line@ =~= start + payload_list(next));
        }
        i = i + 1;
    }
    assert(codecs@.take(i as int) =~= codecs@);
    line.append(" 101");
    line
}

/// Appends the attribute lines that describe one codec.
fn push_codec(out: &mut String, codec: AudioCodec)
    ensures
        final(out)@ == old(out)@ + with_crlf(codec_lines(codec)),
{
    let pt = codec.payload_type();
    let ghost none: Seq<Seq<char>> = Seq::empty();
    let mut map = "a=rtpmap:".to_owned();
    text::push_decimal(&mut map, pt as u64);
    map.append(" ");
    map.append(codec.name());
    map.append("/");
    text::push_decimal(&mut map, codec.clock_rate() as u64);
    if codec == AudioCodec::Opus {
        map.append("/2");
        push_line(out, map.as_str());
        let mut fmtp = "a=fmtp:".to_owned();
        text::push_decimal(&mut fmtp, pt as u64);
        fmtp.append(" useinbandfec=1");
        push_line(out, fmtp.as_str());
        proof {
            lemma_with_crlf_push(none, map@);
            lemma_with_crlf_push(none.push(map@), fmtp@);
            assert(codec_lines(codec) =~= none.push(map@).push(fmtp@));
            assert(out@ =~= old(out)@ + with_crlf(codec_lines(codec)));
        }
    } else {
        push_line(out, map.as_str());
        proof {
            lemma_with_crlf_push(none, map@);
            assert(codec_lines(codec) =~= none.push(map@));
            assert(out@ =~= old(out)@ + with_crlf(codec_lines(codec)));
        }
    }
}

/// An SDP offer for `codecs`, with media received at `local_ip:local_port`.
pub fn build_sdp_offer(local_port: u16, local_ip: &str, codecs: &[AudioCodec]) -> (r: String)
    ensures
        r@ == session_text(local_port, local_ip@, codecs@),
{
    let mut sdp = String::new();
    let origin = text::join2("o=aria 0 0 IN IP4 ", local_ip);
    let connection = text::join2("c=IN IP4 ", local_ip);
    let media = media_line(local_port, codecs);
    push_line(&mut sdp, "v=0");
    push_line(&mut sdp, origin.as_str());
    push_line(&mut sdp, "s=Aria Mobile");
    push_line(&mut sdp, connection.as_str());
    push_line(&mut sdp, "t=0 0");
    push_line(&mut sdp, media.as_str());
    let ghost head = session_head(local_port, local_ip@, codecs@);
    proof {
        let l0: Seq<Seq<char>> = Seq::empty();
        let l1 = l0.push("v=0"@);
        let l2 = l1.push(origin@);
        let l3 = l2.push("s=Aria Mobile"@);
        let l4 = l3.push(connection@);
        let l5 = l4.push("t=0 0"@);
        let l6 = l5.push(media@);
        lemma_with_crlf_push(l0, "v=0"@);
        lemma_with_crlf_push(l1, origin@);
        lemma_with_crlf_push(l2, "s=Aria Mobile"@);
        lemma_with_crlf_push(l3, connection@);
        lemma_with_crlf_push(l4, "t=0 0"@);
        lemma_with_crlf_push(l5, media@);
        assert(head =~= l6);
        assert(sdp@ == with_crlf(head));
        assert(head + all_codec_lines(codecs@.take(0)) =~= head);
    }
    let mut i: usize = 0;
    while i < codecs.len()
        invariant
            i <= codecs@.len(),
            sdp@ == with_crlf(head + all_codec_lines(codecs@.take(i as int))),
        decreases codecs@.len() - i,
    {
        push_codec(&mut sdp, codecs[i]);
        proof {
            let next = codecs@.take(i + 1);
            assert(next.drop_last() =~= codecs@.take(i as int));
            let done = head + all_codec_lines(codecs@.take(i as int));
            lemma_with_crlf_append(done, codec_lines(codecs@[i as int]));
            assert(done + codec_lines(codecs@[i as int]) =~= head + all_codec_lines(next));
        }
        i = i + 1;
    }
    let ghost body = head + all_codec_lines(codecs@);
    assert(codecs@.take(i as int) =~= codecs@);
    push_line(&mut sdp, "a=rtpmap:101 telephone-event/8000");
    push_line(&mut sdp, "a=fmtp:101 0-16");
    push_line(&mut sdp, "a=sendrecv");
    proof {
        let b1 = body.push("a=rtpmap:101 telephone-event/8000"@);
        let b2 = b1.push("a=fmtp:101 0-16"@);
        lemma_with_crlf_push(body, "a=rtpmap:101 telephone-event/8000"@);
        lemma_with_crlf_push(b1, "a=fmtp:101 0-16"@);
        lemma_with_crlf_push(b2, "a=sendrecv"@);
        assert(session_lines(local_port, local_ip@, codecs@) =~= b2.push("a=sendrecv"@));
    }
    sdp
}

/// An SDP answer that settles on `chosen_codec`, with media received at
/// `local_ip:local_port`.
pub fn build_sdp_answer(local_port: u16, local_ip: &str, chosen_codec: AudioCodec) -> (r: String)
    ensures
        r@ == session_text(local_port, local_ip@, seq![chosen_codec]),
{
    let mut codecs: Vec<AudioCodec> = Vec::new();
    codecs.push(chosen_codec);
    assert(codecs@ =~= seq![chosen_codec]);
    build_sdp_offer(local_port, local_ip, codecs.as_slice())
}

// ── Parsing ─────────────────────────────────────────────────────────────────

/// The lines of an SDP text, with the whitespace around each one trimmed.
/// Trimming takes the CR of a CR LF ending away as well.
pub open spec fn sdp_lines(sdp: Seq<char>) -> Seq<Seq<char>> {
    text::split(sdp, '\n').map_values(|line: Seq<char>| text::trim(line))
}

/// A line that gives an IPv4 connection address.
pub open spec fn is_connection(line: Seq<char>) -> bool {
    "c=IN IP4 "@.is_prefix_of(line)
}

/// A complete audio media line: port, profile and at least one format.
pub open spec fn is_media(line: Seq<char>) -> bool {
    "m=audio "@.is_prefix_of(line) && text::words(line).len() >= 4
}

/// The last of `lines` for which `wanted` holds.
pub open spec fn last_where(
    lines: Seq<Seq<char>>,
    wanted: spec_fn(Seq<char>) -> bool,
) -> Option<Seq<char>>
    decreases lines.len(),
{
    if lines.len() == 0 {
        None
    } else if wanted(lines.last()) {
        Some(lines.last())
    } else {
        last_where(lines.drop_last(), wanted)
    }
}

pub open spec fn last_connection(lines: Seq<Seq<char>>) -> Option<Seq<char>> {
    last_where(lines, |line: Seq<char>| is_connection(line))
}

pub open spec fn last_media(lines: Seq<Seq<char>>) -> Option<Seq<char>> {
    last_where(lines, |line: Seq<char>| is_media(line))
}

/// The codec with the given payload type number in decimal.
pub open spec fn codec_for(format: Seq<char>) -> Option<AudioCodec> {
    if format == "0"@ {
        Some(AudioCodec::Pcmu)
    } else if format == "8"@ {
        Some(AudioCodec::Pcma)
    } else if format == "18"@ {
        Some(AudioCodec::G729)
    } else if format == "111"@ {
        Some(AudioCodec::Opus)
    } else {
        None
    }
}

/// Where an SDP asks for its media to be sent, and the codec it prefers: the
/// address of the last connection line, and the port and first format of the
/// last complete media line. Nothing if one of the three is missing or if the
/// port or the format cannot be read.
pub open spec fn remote_of(sdp: Seq<char>) -> Option<(Seq<char>, nat, AudioCodec)> {
    let lines = sdp_lines(sdp);
    match (last_connection(lines), last_media(lines)) {
        (Some(connection), Some(media)) => match (
            text::parse_number(text::words(media)[1], 0xFFFF),
            codec_for(text::words(media)[3]),
        ) {
            (Some(port), Some(codec)) => Some((text::trim(connection.skip(9)), port, codec)),
            _ => None,
        },
        _ => None,
    }
}

/// The peer of a media session as its SDP describes it.
#[derive(Debug)]
pub struct SdpRemote {
    /// Address text of the connection line.
    pub ip: String,
    pub port: u16,
    /// First format of the media line.
    pub codec: AudioCodec,
}

impl View for SdpRemote {
    type V = (Seq<char>, nat, AudioCodec);

    open spec fn view(&self) -> (Seq<char>, nat, AudioCodec) {
        (self.ip@, self.port as nat, self.codec)
    }
}

impl SdpRemote {
    /// The address and port in `ip:port` notation.
    pub fn address_text(&self) -> (r: String)
        ensures
            r@ == self.ip@ + ":"@ + text::decimal(self.port as nat),
    {
        let mut r = text::join2(self.ip.as_str(), ":");
        text::push_decimal(&mut r, self.port as u64);
        r
    }
}

/// The ranges of the trimmed lines of an SDP text.
fn line_ranges(chars: &Vec<char>) -> (r: Vec<(usize, usize)>)
    ensures
        text::ranges_match(chars@, r@, sdp_lines(chars@)),
{
    let raw = text::split_ranges(chars, '\n');
    let mut out: Vec<(usize, usize)> = Vec::new();
    let mut i: usize = 0;
    let ghost pieces = text::split(chars@, '\n');
    while i < raw.len()
        invariant
            i <= raw@.len(),
            out@.len() == i,
            pieces == text::split(chars@, '\n'),
            text::ranges_match(chars@, raw@, pieces),
            forall|j: int|
                #![trigger out@[j]]
                0 <= j < i ==> {
                    &&& out@[j].0 <= out@[j].1 <= chars@.len()
                    &&& chars@.subrange(out@[j].0 as int, out@[j].1 as int) == text::trim(pieces[j])
                },
        decreases raw@.len() - i,
    {
        let (from, to) = raw[i];
        assert(raw@[i as int] == (from, to));
        out.push(text::trim_range(chars, from, to));
        i = i + 1;
    }
    out
}

/// The codec named by the payload type text at `chars[from..to]`.
fn codec_at(chars: &Vec<char>, from: usize, to: usize) -> (r: Option<AudioCodec>)
    requires
        from <= to <= chars@.len(),
    ensures
        r == codec_for(chars@.subrange(from as int, to as int)),
{
    if text::range_is(chars, from, to, "0") {
        Some(AudioCodec::Pcmu)
    } else if text::range_is(chars, from, to, "8") {
        Some(AudioCodec::Pcma)
    } else if text::range_is(chars, from, to, "18") {
        Some(AudioCodec::G729)
    } else if text::range_is(chars, from, to, "111") {
        Some(AudioCodec::Opus)
    } else {
        None
    }
}

/// Parse the remote RTP address and preferred codec from an SDP.
pub fn parse_sdp_remote(sdp: &str) -> (r: Option<SdpRemote>)
    ensures
        match r {
            Some(remote) => remote_of(sdp@) == Some(remote@),
            None => remote_of(sdp@) is None,
        },
{
    let chars = text::chars_of(sdp);
    let ranges = line_ranges(&chars);
    let ghost lines = sdp_lines(sdp@);
    let mut connection: Option<(usize, usize)> = None;
    let mut media: Option<(usize, usize)> = None;
    let mut i: usize = 0;
    while i < ranges.len()
        invariant
            i <= ranges@.len(),
            chars@ == sdp@,
            lines == sdp_lines(sdp@),
            text::ranges_match(chars@, ranges@, lines),
            match connection {
                Some((a, b)) => a <= b <= chars@.len() && last_connection(lines.take(i as int))
                    == Some(chars@.subrange(a as int, b as int)),
                None => last_connection(lines.take(i as int)) is None,
            },
            match media {
                Some((a, b)) => a <= b <= chars@.len() && last_media(lines.take(i as int)) == Some(
                    chars@.subrange(a as int, b as int),
                ),
                None => last_media(lines.take(i as int)) is None,
            },
        decreases ranges@.len() - i,
    {
        let (from, to) = ranges[i];
        let ghost line = lines[i as int];
        proof {
            assert(ranges@[i as int] == (from, to));
            assert(chars@.subrange(from as int, to as int) == line);
            assert(lines.take(i + 1).drop_last() =~= lines.take(i as int));
            assert(lines.take(i + 1).last() == line);
            reveal_strlit("c=IN IP4 ");
            reveal_strlit("m=audio ");
        }
        if text::has_prefix(&chars, from, to, "c=IN IP4 ") {
            connection = Some((from, to));
            proof {
                assert(line[0] == "c=IN IP4 "@[0]);
                assert(!is_media(line)) by {
                    if "m=audio "@.is_prefix_of(line) {
                        assert(line[0] == "m=audio "@[0]);
                    }
                }
            }
        } else if text::has_prefix(&chars, from, to, "m=audio ") {
            let parts = text::word_ranges(&chars, from, to);
            if parts.len() >= 4 {
                media = Some((from, to));
            }
        }
        i = i + 1;
    }
    assert(lines.take(i as int) =~= lines);
    match (connection, media) {
        (Some((a, b)), Some((from, to))) => {
            let parts = text::word_ranges(&chars, from, to);
            let ghost media_words = text::words(chars@.subrange(from as int, to as int));
            proof {
                lemma_last_where(lines, |line: Seq<char>| is_media(line));
                lemma_last_where(lines, |line: Seq<char>| is_connection(line));
                reveal_strlit("c=IN IP4 ");
                assert(parts@.len() == media_words.len());
            }
            let (p0, p1) = parts[1];
            let (f0, f1) = parts[3];
            proof {
                assert(parts@[1] == (p0, p1));
                assert(parts@[3] == (f0, f1));
                assert(chars@.subrange(p0 as int, p1 as int) == media_words[1]);
                assert(chars@.subrange(f0 as int, f1 as int) == media_words[3]);
            }
            match (text::parse_unsigned(&chars, p0, p1, 0xFFFF), codec_at(&chars, f0, f1)) {
                (Some(port), Some(codec)) => {
                    let (x, y) = text::trim_range(&chars, a + 9, b);
                    proof {
                        let line = chars@.subrange(a as int, b as int);
                        assert(line.skip(9) =~= chars@.subrange(a + 9, b as int));
                    }
                    Some(
                        SdpRemote {
                            ip: sdp.substring_char(x, y).to_owned(),
                            port: port as u16,
                            codec,
                        },
                    )
                },
                _ => None,
            }
        },
        _ => None,
    }
}

/// What `last_where` finds is what was wanted.
proof fn lemma_last_where(lines: Seq<Seq<char>>, wanted: spec_fn(Seq<char>) -> bool)
    ensures
        last_where(lines, wanted) matches Some(line) ==> wanted(line),
    decreases lines.len(),
{
    if lines.len() > 0 {
        lemma_last_where(lines.drop_last(), wanted);
    }
}

/// Parse the remote RTP address and preferred codec from an SDP.
pub fn parse_sdp_remote_pub(sdp: &str) -> (r: Option<SdpRemote>)
    ensures
        match r {
            Some(remote) => remote_of(sdp@) == Some(remote@),
            None => remote_of(sdp@) is None,
        },
{
    parse_sdp_remote(sdp)
}

// ── Negotiation ─────────────────────────────────────────────────────────────

/// The first of `lines` that starts with `m=audio`.
pub open spec fn first_audio(lines: Seq<Seq<char>>) -> Option<Seq<char>>
    decreases lines.len(),
{
    if lines.len() == 0 {
        None
    } else if "m=audio"@.is_prefix_of(lines[0]) {
        Some(lines[0])
    } else {
        first_audio(lines.skip(1))
    }
}

/// Payload type `pt` is among the formats (fourth word and on) of a media
/// line.
pub open spec fn lists_format(media: Seq<char>, pt: nat) -> bool {
    exists|i: int|
        3 <= i < text::words(media).len() && #[trigger] text::parse_number(
            text::words(media)[i],
            0xFF,
        ) == Some(pt)
}

/// The first audio line of `sdp` offers payload type `pt`.
pub open spec fn offers(sdp: Seq<char>, pt: nat) -> bool {
    match first_audio(sdp_lines(sdp)) {
        Some(media) => lists_format(media, pt),
        None => false,
    }
}

/// The first of our preferences that `sdp` offers, else PCMU.
pub open spec fn negotiated(sdp: Seq<char>, prefs: Seq<AudioCodec>) -> AudioCodec
    decreases prefs.len(),
{
    if prefs.len() == 0 {
        AudioCodec::Pcmu
    } else if offers(sdp, types::codec_payload_type(prefs[0]) as nat) {
        prefs[0]
    } else {
        negotiated(sdp, prefs.skip(1))
    }
}

/// Index of the first of the lines at `ranges` that starts with `m=audio`.
fn find_audio(chars: &Vec<char>, ranges: &Vec<(usize, usize)>) -> (r: Option<usize>)
    requires
        text::ranges_match(chars@, ranges@, sdp_lines(chars@)),
    ensures
        match r {
            Some(i) => i < ranges@.len() && first_audio(sdp_lines(chars@)) == Some(
                sdp_lines(chars@)[i as int],
            ),
            None => first_audio(sdp_lines(chars@)) is None,
        },
{
    let ghost lines = sdp_lines(chars@);
    let mut i: usize = 0;
    assert(lines.skip(0) =~= lines);
    while i < ranges.len()
        invariant
            i <= ranges@.len(),
            lines == sdp_lines(chars@),
            text::ranges_match(chars@, ranges@, lines),
            first_audio(lines) == first_audio(lines.skip(i as int)),
        decreases ranges@.len() - i,
    {
        let (from, to) = ranges[i];
        assert(ranges@[i as int] == (from, to));
        if text::has_prefix(chars, from, to, "m=audio") {
            return Some(i);
        }
        assert(lines.skip(i as int).skip(1) =~= lines.skip(i + 1));
        i = i + 1;
    }
    None
}

/// Does the media line at `chars[from..to]` list payload type `pt`?
fn media_lists(chars: &Vec<char>, from: usize, to: usize, pt: u8) -> (r: bool)
    requires
        from <= to <= chars@.len(),
    ensures
        r == lists_format(chars@.subrange(from as int, to as int), pt as nat),
{
    let parts = text::word_ranges(chars, from, to);
    let ghost media = chars@.subrange(from as int, to as int);
    let mut i: usize = 3;
    while i < parts.len()
        invariant
            3 <= i,
            media == chars@.subrange(from as int, to as int),
            text::ranges_match(chars@, parts@, text::words(media)),
            forall|j: int|
                3 <= j < i && j < parts@.len() ==> #[trigger] text::parse_number(
                    text::words(media)[j],
                    0xFF,
                ) != Some(pt as nat),
        decreases parts@.len() - i,
    {
        let (a, b) = parts[i];
        assert(parts@[i as int] == (a, b));
        if let Some(n) = text::parse_unsigned(chars, a, b, 0xFF) {
            if n == pt as u64 {
                assert(text::parse_number(text::words(media)[i as int], 0xFF) == Some(pt as nat));
                return true;
            }
        }
        i = i + 1;
    }
    false
}

/// Negotiate codec: pick the first from our preferences that appears in the
/// offer, and fall back to PCMU.
pub fn negotiate_codec(offer_sdp: &str, our_prefs: &[AudioCodec]) -> (r: AudioCodec)
    ensures
        r == negotiated(offer_sdp@, our_prefs@),
{
    let chars = text::chars_of(offer_sdp);
    let ranges = line_ranges(&chars);
    let audio = find_audio(&chars, &ranges);
    let mut i: usize = 0;
    assert(our_prefs@.skip(0) =~= our_prefs@);
    while i < our_prefs.len()
        invariant
            i <= our_prefs@.len(),
            chars@ == offer_sdp@,
            text::ranges_match(chars@, ranges@, sdp_lines(chars@)),
            match audio {
                Some(k) => k < ranges@.len() && first_audio(sdp_lines(chars@)) == Some(
                    sdp_lines(chars@)[k as int],
                ),
                None => first_audio(sdp_lines(chars@)) is None,
            },
            negotiated(offer_sdp@, our_prefs@) == negotiated(
                offer_sdp@,
                our_prefs@.skip(i as int),
            ),
        decreases our_prefs@.len() - i,
    {
        let pref = our_prefs[i];
        if let Some(k) = audio {
            let (from, to) = ranges[k];
            assert(ranges@[k as int] == (from, to));
            if media_lists(&chars, from, to, pref.payload_type()) {
                return pref;
            }
        }
        assert(our_prefs@.skip(i as int).skip(1) =~= our_prefs@.skip(i + 1));
        i = i + 1;
    }
    AudioCodec::Pcmu
}

/// Which codecs an outgoing offer lists when the caller prefers `prefs`.
pub open spec fn offered_codecs(prefs: Seq<AudioCodec>) -> Seq<AudioCodec> {
    if prefs.len() == 0 {
        seq![AudioCodec::Pcmu, AudioCodec::Pcma, AudioCodec::Opus]
    } else {
        prefs
    }
}

/// The codecs to list in an outgoing offer: the preferences, or the default
/// set if there are none.
pub fn offer_codecs(preferred_codecs: &[AudioCodec]) -> (r: Vec<AudioCodec>)
    ensures
        r@ == offered_codecs(preferred_codecs@),
{
    let mut codecs: Vec<AudioCodec> = Vec::new();
    if preferred_codecs.len() == 0 {
        codecs.push(AudioCodec::Pcmu);
        codecs.push(AudioCodec::Pcma);
        codecs.push(AudioCodec::Opus);
        assert(codecs@ =~= offered_codecs(preferred_codecs@));
        return codecs;
    }
    let mut i: usize = 0;
    while i < preferred_codecs.len()
        invariant
            i <= preferred_codecs@.len(),
            codecs@ == preferred_codecs@.take(i as int),
        decreases preferred_codecs@.len() - i,
    {
        codecs.push(preferred_codecs[i]);
        assert(codecs@ =~= preferred_codecs@.take(i + 1));
        i = i + 1;
    }
    assert(codecs@ =~= preferred_codecs@);
    codecs
}

/// The codec with which an outgoing session starts: the first preference, or
/// PCMU if there is none.
pub fn first_codec(preferred_codecs: &[AudioCodec]) -> (r: AudioCodec)
    ensures
        r == offered_codecs(preferred_codecs@)[0],
{
    if preferred_codecs.len() == 0 {
        AudioCodec::Pcmu
    } else {
        preferred_codecs[0]
    }
}

} // verus!
