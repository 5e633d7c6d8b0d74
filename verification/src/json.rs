//! The frame writer's serialization: a block list as one compact JSON array
//! with the line-protocol continuation token, and the stream header line.
//! Optional fields are omitted when absent; string contents are escaped.

use crate::bar::{blocks_view, Block, BlockV, Header};
use crate::config::opt_view;
use crate::text::{chars_to_string, spec_dec, spec_digit, str_to_chars, u64_dec_chars};
use vstd::prelude::*;

verus! {

/// The hexadecimal digit character for d in 0..16, lower case.
pub open spec fn spec_hex_digit(d: nat) -> char {
    if d < 10 {
        spec_digit(d)
    } else if d == 10 {
        'a'
    } else if d == 11 {
        'b'
    } else if d == 12 {
        'c'
    } else if d == 13 {
        'd'
    } else if d == 14 {
        'e'
    } else {
        'f'
    }
}

/// The escape of one character inside a JSON string literal: quote and
/// backslash escaped, the named control escapes, any other control as a
/// four-digit escape, everything else itself.
pub open spec fn json_escape_char(c: char) -> Seq<char> {
    if c == '"' {
        seq!['\\', '"']
    } else if c == '\\' {
        seq!['\\', '\\']
    } else if c == '\u{8}' {
        seq!['\\', 'b']
    } else if c == '\t' {
        seq!['\\', 't']
    } else if c == '\n' {
        seq!['\\', 'n']
    } else if c == '\u{c}' {
        seq!['\\', 'f']
    } else if c == '\r' {
        seq!['\\', 'r']
    } else if (c as u32) < 32 {
        seq![
            '\\',
            'u',
            '0',
            '0',
            spec_hex_digit(((c as u32) / 16) as nat),
            spec_hex_digit(((c as u32) % 16) as nat),
        ]
    } else {
        seq![c]
    }
}

/// A string's characters, each escaped.
pub open spec fn json_escape(s: Seq<char>) -> Seq<char>
    decreases s.len(),
{
    if s.len() == 0 {
        Seq::empty()
    } else {
        json_escape_char(s[0]) + json_escape(s.skip(1))
    }
}

/// A JSON string literal: quoted and escaped.
pub open spec fn json_string(s: Seq<char>) -> Seq<char> {
    seq!['"'] + json_escape(s) + seq!['"']
}

/// An optional string field: the key and its value, or nothing.
pub open spec fn opt_str_field(key: Seq<char>, v: Option<Seq<char>>) -> Seq<char> {
    match v {
        Option::Some(s) => key + json_string(s),
        Option::None => Seq::empty(),
    }
}

/// An optional boolean field: the key and its value, or nothing.
pub open spec fn opt_bool_field(key: Seq<char>, v: Option<bool>) -> Seq<char> {
    match v {
        Option::Some(b) => key + (if b {
            "true"@
        } else {
            "false"@
        }),
        Option::None => Seq::empty(),
    }
}

/// An optional numeric field: the key and its value, or nothing.
pub open spec fn opt_u16_field(key: Seq<char>, v: Option<u16>) -> Seq<char> {
    match v {
        Option::Some(n) => key + spec_dec(n as nat),
        Option::None => Seq::empty(),
    }
}

/// An optional numeric field: the key and its value, or nothing.
pub open spec fn opt_u8_field(key: Seq<char>, v: Option<u8>) -> Seq<char> {
    match v {
        Option::Some(n) => key + spec_dec(n as nat),
        Option::None => Seq::empty(),
    }
}

/// One block as a compact JSON object: `full_text` always, each optional
/// field only when present, in declaration order.
pub open spec fn block_json(b: BlockV) -> Seq<char> {
    "{\"full_text\":"@ + json_string(b.full_text) + opt_str_field(
        ",\"short_text\":"@,
        b.short_text,
    ) + opt_str_field(",\"color\":"@, b.color) + opt_str_field(",\"min_width\":"@, b.min_width)
        + opt_str_field(",\"align\":"@, b.align) + opt_str_field(",\"name\":"@, b.name)
        + opt_str_field(",\"instance\":"@, b.instance) + opt_bool_field(",\"urgent\":"@, b.urgent)
        + opt_bool_field(",\"separator\":"@, b.separator) + opt_u16_field(
        ",\"separator_block_width\":"@,
        b.separator_block_width,
    ) + opt_str_field(",\"markup\":"@, b.markup) + opt_str_field(",\"background\":"@, b.background)
        + opt_str_field(",\"border\":"@, b.border) + opt_str_field(
        ",\"border_top\":"@,
        b.border_top,
    ) + opt_str_field(",\"border_bottom\":"@, b.border_bottom) + opt_str_field(
        ",\"border_left\":"@,
        b.border_left,
    ) + opt_str_field(",\"border_right\":"@, b.border_right) + seq!['}']
}

/// Every block after the first, each preceded by a comma.
pub open spec fn blocks_json_rest(bs: Seq<BlockV>) -> Seq<char>
    decreases bs.len(),
{
    if bs.len() == 0 {
        Seq::empty()
    } else {
        seq![','] + block_json(bs[0]) + blocks_json_rest(bs.skip(1))
    }
}

/// One frame as a compact JSON array of blocks.
pub open spec fn frame_json(bs: Seq<BlockV>) -> Seq<char> {
    if bs.len() == 0 {
        "[]"@
    } else {
        seq!['['] + block_json(bs[0]) + blocks_json_rest(bs.skip(1)) + seq![']']
    }
}

/// One protocol line: the frame followed by the continuation token.
pub open spec fn frame_line(bs: Seq<BlockV>) -> Seq<char> {
    frame_json(bs) + ",\n"@
}

/// The header object: `version` always, the optional signals and the click
/// flag only when present.
pub open spec fn header_json(h: Header) -> Seq<char> {
    "{\"version\":"@ + spec_dec(h.version as nat) + opt_u8_field(
        ",\"stop_signal\":"@,
        h.stop_signal,
    ) + opt_u8_field(",\"cont_signal\":"@, h.cont_signal) + opt_bool_field(
        ",\"click_events\":"@,
        h.click_events,
    ) + seq!['}']
}

/// The opening of the protocol stream: the header line, then the line that
/// starts the perpetual frame array.
pub open spec fn protocol_opening_text(h: Header) -> Seq<char> {
    header_json(h) + "\n[\n"@
}

fn hex_digit_char(d: u32) -> (c: char)
    requires
        d < 16,
    ensures
        c == spec_hex_digit(d as nat),
{
    if d == 0 {
        '0'
    } else if d == 1 {
        '1'
    } else if d == 2 {
        '2'
    } else if d == 3 {
        '3'
    } else if d == 4 {
        '4'
    } else if d == 5 {
        '5'
    } else if d == 6 {
        '6'
    } else if d == 7 {
        '7'
    } else if d == 8 {
        '8'
    } else if d == 9 {
        '9'
    } else if d == 10 {
        'a'
    } else if d == 11 {
        'b'
    } else if d == 12 {
        'c'
    } else if d == 13 {
        'd'
    } else if d == 14 {
        'e'
    } else {
        'f'
    }
}

fn push_chars(out: &mut Vec<char>, add: &Vec<char>)
    ensures
        final(out)@ == old(out)@ + add@,
{
    let mut j: usize = 0;
    while j < add.len()
        invariant
            j <= add@.len(),
            out@ == old(out)@ + add@.take(j as int),
        decreases add@.len() - j,
    {
        out.push(add[j]);
        proof {
            assert(old(out)@ + add@.take(j as int + 1) =~= (old(out)@ + add@.take(j as int)).push(
                add@[j as int],
            ));
        }
        j = j + 1;
    }
    proof {
        assert(add@.take(add@.len() as int) =~= add@);
    }
}

fn push_lit(out: &mut Vec<char>, lit: &str)
    ensures
        final(out)@ == old(out)@ + lit@,
{
    let v = str_to_chars(lit);
    push_chars(out, &v);
}

fn push_escape_char(out: &mut Vec<char>, c: char)
    ensures
        final(out)@ == old(out)@ + json_escape_char(c),
{
    let ghost prev = out@;
    if c == '"' {
        out.push('\\');
        out.push('"');
    } else if c == '\\' {
        out.push('\\');
        out.push('\\');
    } else if c == '\u{8}' {
        out.push('\\');
        out.push('b');
    } else if c == '\t' {
        out.push('\\');
        out.push('t');
    } else if c == '\n' {
        out.push('\\');
        out.push('n');
    } else if c == '\u{c}' {
        out.push('\\');
        out.push('f');
    } else if c == '\r' {
        out.push('\\');
        out.push('r');
    } else if (c as u32) < 32 {
        let v = c as u32;
        out.push('\\');
        out.push('u');
        out.push('0');
        out.push('0');
        out.push(hex_digit_char(v / 16));
        out.push(hex_digit_char(v % 16));
    } else {
        out.push(c);
    }
    proof {
        assert(out@ =~= prev + json_escape_char(c));
    }
}

proof fn lemma_json_escape_snoc(s: Seq<char>, c: char)
    ensures
        json_escape(s.push(c)) == json_escape(s) + json_escape_char(c),
    decreases s.len(),
{
    if s.len() == 0 {
        assert(s.push(c)[0] == c);
        assert(s.push(c).skip(1) =~= Seq::<char>::empty());
        assert(json_escape(s.push(c)) == json_escape_char(c) + json_escape(
            Seq::<char>::empty(),
        ));
        assert(json_escape_char(c) + Seq::<char>::empty() =~= json_escape_char(c));
        assert(json_escape(s) + json_escape_char(c) =~= json_escape_char(c));
    } else {
        assert(s.push(c)[0] == s[0]);
        assert(s.push(c).skip(1) =~= s.skip(1).push(c));
        lemma_json_escape_snoc(s.skip(1), c);
        assert(json_escape_char(s[0]) + (json_escape(s.skip(1)) + json_escape_char(c))
            =~= (json_escape_char(s[0]) + json_escape(s.skip(1))) + json_escape_char(c));
    }
}

fn push_json_string(out: &mut Vec<char>, s: &str)
    ensures
        final(out)@ == old(out)@ + json_string(s@),
{
    let ghost start = out@;
    out.push('"');
    let chars = str_to_chars(s);
    let mut i: usize = 0;
    while i < chars.len()
        invariant
            i <= chars@.len(),
            chars@ == s@,
            out@ == start + seq!['"'] + json_escape(s@.take(i as int)),
        decreases chars@.len() - i,
    {
        push_escape_char(out, chars[i]);
        proof {
            assert(s@.take(i as int).push(s@[i as int]) =~= s@.take(i as int + 1));
            lemma_json_escape_snoc(s@.take(i as int), s@[i as int]);
        }
        i = i + 1;
    }
    out.push('"');
    proof {
        assert(s@.take(s@.len() as int) =~= s@);
        assert(out@ =~= old(out)@ + json_string(s@));
    }
}

fn push_opt_str_field(out: &mut Vec<char>, key: &str, v: &Option<String>)
    ensures
        final(out)@ == old(out)@ + opt_str_field(key@, opt_view(*v)),
{
    match v {
        Option::Some(s) => {
            push_lit(out, key);
            push_json_string(out, s.as_str());
            proof {
                assert((old(out)@ + key@) + json_string(s@) =~= old(out)@ + (key@ + json_string(
                    s@,
                )));
            }
        },
        Option::None => {
            proof {
                assert(out@ =~= old(out)@ + Seq::<char>::empty());
            }
        },
    }
}

fn push_opt_bool_field(out: &mut Vec<char>, key: &str, v: &Option<bool>)
    ensures
        final(out)@ == old(out)@ + opt_bool_field(key@, *v),
{
    match v {
        Option::Some(b) => {
            push_lit(out, key);
            if *b {
                push_lit(out, "true");
            } else {
                push_lit(out, "false");
            }
            proof {
                assert((old(out)@ + key@) + (if *b {
                    "true"@
                } else {
                    "false"@
                }) =~= old(out)@ + opt_bool_field(key@, *v));
            }
        },
        Option::None => {
            proof {
                assert(out@ =~= old(out)@ + Seq::<char>::empty());
            }
        },
    }
}

fn push_opt_u16_field(out: &mut Vec<char>, key: &str, v: &Option<u16>)
    ensures
        final(out)@ == old(out)@ + opt_u16_field(key@, *v),
{
    match v {
        Option::Some(n) => {
            push_lit(out, key);
            let d = u64_dec_chars(*n as u64);
            push_chars(out, &d);
            proof {
                assert((old(out)@ + key@) + spec_dec(*n as nat) =~= old(out)@ + opt_u16_field(
                    key@,
                    *v,
                ));
            }
        },
        Option::None => {
            proof {
                assert(out@ =~= old(out)@ + Seq::<char>::empty());
            }
        },
    }
}

fn push_opt_u8_field(out: &mut Vec<char>, key: &str, v: &Option<u8>)
    ensures
        final(out)@ == old(out)@ + opt_u8_field(key@, *v),
{
    match v {
        Option::Some(n) => {
            push_lit(out, key);
            let d = u64_dec_chars(*n as u64);
            push_chars(out, &d);
            proof {
                assert((old(out)@ + key@) + spec_dec(*n as nat) =~= old(out)@ + opt_u8_field(
                    key@,
                    *v,
                ));
            }
        },
        Option::None => {
            proof {
                assert(out@ =~= old(out)@ + Seq::<char>::empty());
            }
        },
    }
}

fn block_json_chars(b: &Block) -> (r: Vec<char>)
    ensures
        r@ == block_json(b@),
{
    let mut out: Vec<char> = Vec::new();
    push_lit(&mut out, "{\"full_text\":");
    proof {
        assert(Seq::<char>::empty() + "{\"full_text\":"@ =~= "{\"full_text\":"@);
    }
    push_json_string(&mut out, b.full_text.as_str());
    push_opt_str_field(&mut out, ",\"short_text\":", &b.short_text);
    push_opt_str_field(&mut out, ",\"color\":", &b.color);
    push_opt_str_field(&mut out, ",\"min_width\":", &b.min_width);
    push_opt_str_field(&mut out, ",\"align\":", &b.align);
    push_opt_str_field(&mut out, ",\"name\":", &b.name);
    push_opt_str_field(&mut out, ",\"instance\":", &b.instance);
    push_opt_bool_field(&mut out, ",\"urgent\":", &b.urgent);
    push_opt_bool_field(&mut out, ",\"separator\":", &b.separator);
    push_opt_u16_field(&mut out, ",\"separator_block_width\":", &b.separator_block_width);
    push_opt_str_field(&mut out, ",\"markup\":", &b.markup);
    push_opt_str_field(&mut out, ",\"background\":", &b.background);
    push_opt_str_field(&mut out, ",\"border\":", &b.border);
    push_opt_str_field(&mut out, ",\"border_top\":", &b.border_top);
    push_opt_str_field(&mut out, ",\"border_bottom\":", &b.border_bottom);
    push_opt_str_field(&mut out, ",\"border_left\":", &b.border_left);
    push_opt_str_field(&mut out, ",\"border_right\":", &b.border_right);
    let ghost before_brace = out@;
    out.push('}');
    proof {
        assert(out@ =~= before_brace + seq!['}']);
        assert(out@ == block_json(b@));
    }
    out
}

fn blocks_rest_chars(v: &Vec<Block>, i: usize) -> (r: Vec<char>)
    requires
        1 <= i <= v@.len(),
    ensures
        r@ == blocks_json_rest(blocks_view(v@).skip(i as int)),
    decreases v@.len() - i,
{
    let ghost bs = blocks_view(v@);
    let mut out: Vec<char> = Vec::new();
    if i >= v.len() {
        proof {
            assert(bs.skip(i as int) =~= Seq::<BlockV>::empty());
            assert(out@ =~= Seq::<char>::empty());
        }
        return out;
    }
    out.push(',');
    proof {
        assert(out@ =~= seq![',']);
    }
    let blk = block_json_chars(&v[i]);
    push_chars(&mut out, &blk);
    let rest = blocks_rest_chars(v, i + 1);
    push_chars(&mut out, &rest);
    proof {
        assert(bs.skip(i as int)[0] == bs[i as int]);
        assert(bs.skip(i as int).skip(1) =~= bs.skip(i as int + 1));
        assert(out@ == blocks_json_rest(bs.skip(i as int)));
    }
    out
}

/// One frame, serialized exactly as the protocol wants the line: the block
/// array, then the continuation comma and newline.
pub fn render_frame(v: &Vec<Block>) -> (r: String)
    ensures
        r@ == frame_line(blocks_view(v@)),
{
    let ghost bs = blocks_view(v@);
    let mut out: Vec<char> = Vec::new();
    if v.len() == 0 {
        push_lit(&mut out, "[]");
        proof {
            assert(Seq::<char>::empty() + "[]"@ =~= "[]"@);
        }
    } else {
        out.push('[');
        proof {
            assert(out@ =~= seq!['[']);
        }
        let blk = block_json_chars(&v[0]);
        push_chars(&mut out, &blk);
        let rest = blocks_rest_chars(v, 1);
        push_chars(&mut out, &rest);
        let ghost before_bracket = out@;
        out.push(']');
        proof {
            assert(out@ =~= before_bracket + seq![']']);
            assert(out@ == frame_json(bs));
        }
    }
    push_lit(&mut out, ",\n");
    chars_to_string(&out)
}

/// The opening of the protocol stream for a header, serialized exactly: the
/// header object, a newline, and the line that starts the frame array.
pub fn protocol_opening(h: &Header) -> (r: String)
    ensures
        r@ == protocol_opening_text(*h),
{
    let mut out: Vec<char> = Vec::new();
    push_lit(&mut out, "{\"version\":");
    proof {
        assert(Seq::<char>::empty() + "{\"version\":"@ =~= "{\"version\":"@);
    }
    let d = u64_dec_chars(h.version as u64);
    push_chars(&mut out, &d);
    push_opt_u8_field(&mut out, ",\"stop_signal\":", &h.stop_signal);
    push_opt_u8_field(&mut out, ",\"cont_signal\":", &h.cont_signal);
    push_opt_bool_field(&mut out, ",\"click_events\":", &h.click_events);
    let ghost before_brace = out@;
    out.push('}');
    proof {
        assert(out@ =~= before_brace + seq!['}']);
        assert(out@ == header_json(*h));
    }
    push_lit(&mut out, "\n[\n");
    chars_to_string(&out)
}

} // verus!
