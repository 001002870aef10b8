//! Import of an exported conversation: a verified decoder for the structured
//! JSON document `export_json` writes, with the round-trip theorem — decoding
//! an exported history reproduces the identical message sequence.

use vstd::prelude::*;

use crate::export::{enc_bool, enc_doc, enc_msg, enc_msgs_from, enc_str, enc_strlist,
    enc_strlist_from, esc, esc_char, role_name, spec_hex_digit};
use crate::msg::{Message, MsgV, Role};
use crate::numfmt::{lemma_parse_dec, parse_u64_at, spec_dec, spec_is_digit, spec_parse_u64};
use crate::textutil::{chars_of, matches_at, string_of};

verus! {

/// `t` occurs in `s` at position `i`.
pub open spec fn seg(s: Seq<char>, i: int, t: Seq<char>) -> bool {
    &&& 0 <= i
    &&& i + t.len() <= s.len()
    &&& forall|k: int| 0 <= k < t.len() ==> s[i + k] == #[trigger] t[k]
}

/// An occurrence of a concatenation is an occurrence of each part in turn.
proof fn lemma_seg_split(s: Seq<char>, i: int, a: Seq<char>, b: Seq<char>)
    requires
        seg(s, i, a + b),
    ensures
        seg(s, i, a),
        seg(s, i + a.len(), b),
{
    assert forall|k: int| 0 <= k < a.len() implies s[i + k] == #[trigger] a[k] by {
        assert(s[i + k] == (a + b)[k]);
    }
    assert forall|k: int| 0 <= k < b.len() implies s[i + a.len() + k] == #[trigger] b[k] by {
        assert(s[i + (a.len() + k)] == (a + b)[a.len() + k]);
    }
}

/// One character of an occurrence, by index.
proof fn lemma_seg_index(s: Seq<char>, i: int, t: Seq<char>, k: int)
    requires
        seg(s, i, t),
        0 <= k < t.len(),
    ensures
        s[i + k] == t[k],
{
}

/// The value of a lowercase hex digit, or a negative value for any other
/// character.
pub open spec fn spec_hex_val(c: char) -> int {
    if c == '0' {
        0
    } else if c == '1' {
        1
    } else if c == '2' {
        2
    } else if c == '3' {
        3
    } else if c == '4' {
        4
    } else if c == '5' {
        5
    } else if c == '6' {
        6
    } else if c == '7' {
        7
    } else if c == '8' {
        8
    } else if c == '9' {
        9
    } else if c == 'a' {
        10
    } else if c == 'b' {
        11
    } else if c == 'c' {
        12
    } else if c == 'd' {
        13
    } else if c == 'e' {
        14
    } else if c == 'f' {
        15
    } else {
        -1
    }
}

/// The control character with the given code point.
pub open spec fn spec_ctrl_char(v: int) -> char
    recommends
        0 <= v < 32,
{
    if v == 0 {
        '\u{0}'
    } else if v == 1 {
        '\u{1}'
    } else if v == 2 {
        '\u{2}'
    } else if v == 3 {
        '\u{3}'
    } else if v == 4 {
        '\u{4}'
    } else if v == 5 {
        '\u{5}'
    } else if v == 6 {
        '\u{6}'
    } else if v == 7 {
        '\u{7}'
    } else if v == 8 {
        '\u{8}'
    } else if v == 9 {
        '\u{9}'
    } else if v == 10 {
        '\u{a}'
    } else if v == 11 {
        '\u{b}'
    } else if v == 12 {
        '\u{c}'
    } else if v == 13 {
        '\u{d}'
    } else if v == 14 {
        '\u{e}'
    } else if v == 15 {
        '\u{f}'
    } else if v == 16 {
        '\u{10}'
    } else if v == 17 {
        '\u{11}'
    } else if v == 18 {
        '\u{12}'
    } else if v == 19 {
        '\u{13}'
    } else if v == 20 {
        '\u{14}'
    } else if v == 21 {
        '\u{15}'
    } else if v == 22 {
        '\u{16}'
    } else if v == 23 {
        '\u{17}'
    } else if v == 24 {
        '\u{18}'
    } else if v == 25 {
        '\u{19}'
    } else if v == 26 {
        '\u{1a}'
    } else if v == 27 {
        '\u{1b}'
    } else if v == 28 {
        '\u{1c}'
    } else if v == 29 {
        '\u{1d}'
    } else if v == 30 {
        '\u{1e}'
    } else if v == 31 {
        '\u{1f}'
    } else {
        '\u{1f}'
    }
}

/// Every character value lies in the Unicode scalar range, so its code point
/// is non-negative.
proof fn lemma_char_code_nonneg(c: char)
    ensures
        0 <= c as int,
{
}

/// The character a string escape stands for.
pub open spec fn unesc_char(c: char) -> Option<char> {
    if c == '"' {
        Some('"')
    } else if c == '\\' {
        Some('\\')
    } else if c == 'n' {
        Some('\n')
    } else if c == 'r' {
        Some('\r')
    } else if c == 't' {
        Some('\t')
    } else {
        None
    }
}

/// The parse of a string body at `i` (past the opening quote): the unescaped
/// characters up to the closing quote, and the position past it.
pub open spec fn spec_parse_str_body(s: Seq<char>, i: int) -> Option<(Seq<char>, int)>
    decreases s.len() - i,
{
    if i < 0 || i >= s.len() {
        None
    } else if s[i] == '"' {
        Some((Seq::<char>::empty(), i + 1))
    } else if s[i] == '\\' {
        if i + 1 >= s.len() {
            None
        } else if s[i + 1] == 'u' {
            // the encoder's \u00.. form of a control character
            if i + 5 < s.len() && s[i + 2] == '0' && s[i + 3] == '0' && spec_hex_val(s[i + 4])
                >= 0 && spec_hex_val(s[i + 5]) >= 0 && spec_hex_val(s[i + 4]) * 16 + spec_hex_val(
                s[i + 5],
            ) < 32 {
                match spec_parse_str_body(s, i + 6) {
                    Some((t, j)) => Some(
                        (
                            seq![
                                spec_ctrl_char(
                                    spec_hex_val(s[i + 4]) * 16 + spec_hex_val(s[i + 5]),
                                )
                            ] + t,
                            j,
                        ),
                    ),
                    None => None,
                }
            } else {
                None
            }
        } else {
            match unesc_char(s[i + 1]) {
                Some(c) => match spec_parse_str_body(s, i + 2) {
                    Some((t, j)) => Some((seq![c] + t, j)),
                    None => None,
                },
                None => None,
            }
        }
    } else {
        match spec_parse_str_body(s, i + 1) {
            Some((t, j)) => Some((seq![s[i]] + t, j)),
            None => None,
        }
    }
}

/// The parse of a string token at `i`: an opening quote, the body, the
/// closing quote.
pub open spec fn spec_parse_string(s: Seq<char>, i: int) -> Option<(Seq<char>, int)> {
    if 0 <= i < s.len() && s[i] == '"' {
        spec_parse_str_body(s, i + 1)
    } else {
        None
    }
}

/// The parse of a literal at `i`: the position past it when it occurs there.
pub open spec fn spec_parse_lit(s: Seq<char>, i: int, lit: Seq<char>) -> Option<int> {
    if seg(s, i, lit) {
        Some(i + lit.len())
    } else {
        None
    }
}

/// The parse of a boolean token.
pub open spec fn spec_parse_bool(s: Seq<char>, i: int) -> Option<(bool, int)> {
    if spec_parse_lit(s, i, "true"@) is Some {
        Some((true, spec_parse_lit(s, i, "true"@)->Some_0))
    } else if spec_parse_lit(s, i, "false"@) is Some {
        Some((false, spec_parse_lit(s, i, "false"@)->Some_0))
    } else {
        None
    }
}

/// The parse of the items of a non-empty string array, at the first item.
pub open spec fn spec_parse_strlist_items(s: Seq<char>, i: int) -> Option<
    (Seq<Seq<char>>, int),
>
    decreases s.len() - i,
{
    if i < 0 {
        None
    } else {
        match spec_parse_string(s, i) {
            Some((v, j)) => {
                if i < j && j < s.len() {
                    if s[j] == ']' {
                        Some((seq![v], j + 1))
                    } else if s[j] == ',' {
                        match spec_parse_strlist_items(s, j + 1) {
                            Some((vs, k)) => Some((seq![v] + vs, k)),
                            None => None,
                        }
                    } else {
                        None
                    }
                } else {
                    None
                }
            },
            None => None,
        }
    }
}

/// The parse of a string array.
pub open spec fn spec_parse_strlist(s: Seq<char>, i: int) -> Option<(Seq<Seq<char>>, int)> {
    if 0 <= i < s.len() && s[i] == '[' {
        if i + 1 < s.len() && s[i + 1] == ']' {
            Some((Seq::<Seq<char>>::empty(), i + 2))
        } else {
            spec_parse_strlist_items(s, i + 1)
        }
    } else {
        None
    }
}

/// The parse of one message object.
pub open spec fn spec_parse_msg(s: Seq<char>, i: int) -> Option<(MsgV, int)> {
    match spec_parse_lit(s, i, "{\"role\":"@) {
        None => None,
        Some(i1) => match spec_parse_string(s, i1) {
            None => None,
            Some((rname, i2)) => {
                if rname != "user"@ && rname != "assistant"@ {
                    None
                } else {
                    let role = if rname == "user"@ {
                        Role::User
                    } else {
                        Role::Assistant
                    };
                    match spec_parse_lit(s, i2, ",\"content\":"@) {
                        None => None,
                        Some(i3) => match spec_parse_string(s, i3) {
                            None => None,
                            Some((content, i4)) => match spec_parse_lit(s, i4, ",\"model\":"@) {
                                None => None,
                                Some(i5) => match spec_parse_string(s, i5) {
                                    None => None,
                                    Some((model, i6)) => spec_parse_msg_tail(
                                        s,
                                        i6,
                                        role,
                                        content,
                                        model,
                                    ),
                                },
                            },
                        },
                    }
                }
            },
        },
    }
}

/// The parse of a message object past its model field.
pub open spec fn spec_parse_msg_tail(
    s: Seq<char>,
    i: int,
    role: Role,
    content: Seq<char>,
    model: Seq<char>,
) -> Option<(MsgV, int)> {
    match spec_parse_lit(s, i, ",\"time\":"@) {
        None => None,
        Some(i7) => match spec_parse_u64(s, i7) {
            None => None,
            Some((time, i8)) => match spec_parse_lit(s, i8, ",\"files\":"@) {
                None => None,
                Some(i9) => match spec_parse_strlist(s, i9) {
                    None => None,
                    Some((files, i10)) => match spec_parse_msg_flags(s, i10) {
                        None => None,
                        Some((g, e, t, p, end)) => Some(
                            (
                                MsgV {
                                    role,
                                    content,
                                    model,
                                    time,
                                    files,
                                    is_generating: g,
                                    is_error: e,
                                    is_thought: t,
                                    is_prepending: p,
                                },
                                end,
                            ),
                        ),
                    },
                },
            },
        },
    }
}

/// The parse of the four flag fields and the closing brace.
pub open spec fn spec_parse_msg_flags(s: Seq<char>, i: int) -> Option<
    (bool, bool, bool, bool, int),
> {
    match spec_parse_lit(s, i, ",\"is_generating\":"@) {
        None => None,
        Some(i11) => match spec_parse_bool(s, i11) {
            None => None,
            Some((g, i12)) => match spec_parse_lit(s, i12, ",\"is_error\":"@) {
                None => None,
                Some(i13) => match spec_parse_bool(s, i13) {
                    None => None,
                    Some((e, i14)) => match spec_parse_lit(s, i14, ",\"is_thought\":"@) {
                        None => None,
                        Some(i15) => match spec_parse_bool(s, i15) {
                            None => None,
                            Some((t, i16)) => match spec_parse_lit(
                                s,
                                i16,
                                ",\"is_prepending\":"@,
                            ) {
                                None => None,
                                Some(i17) => match spec_parse_bool(s, i17) {
                                    None => None,
                                    Some((p, i18)) => match spec_parse_lit(s, i18, "}"@) {
                                        None => None,
                                        Some(end) => Some((g, e, t, p, end)),
                                    },
                                },
                            },
                        },
                    },
                },
            },
        },
    }
}

/// The parse of the items of a non-empty message array, at the first item.
pub open spec fn spec_parse_msgs_items(s: Seq<char>, i: int) -> Option<(Seq<MsgV>, int)>
    decreases s.len() - i,
{
    if i < 0 {
        None
    } else {
        match spec_parse_msg(s, i) {
            Some((m, j)) => {
                if i < j && j < s.len() {
                    if s[j] == ']' {
                        Some((seq![m], j + 1))
                    } else if s[j] == ',' {
                        match spec_parse_msgs_items(s, j + 1) {
                            Some((ms, k)) => Some((seq![m] + ms, k)),
                            None => None,
                        }
                    } else {
                        None
                    }
                } else {
                    None
                }
            },
            None => None,
        }
    }
}

/// The decoding of a whole document: the message array, which must cover the
/// input exactly.
pub open spec fn spec_import(s: Seq<char>) -> Option<Seq<MsgV>> {
    if s.len() >= 2 && s[0] == '[' {
        if s[1] == ']' {
            if s.len() == 2 {
                Some(Seq::<MsgV>::empty())
            } else {
                None
            }
        } else {
            match spec_parse_msgs_items(s, 1) {
                Some((ms, j)) => if j == s.len() {
                    Some(ms)
                } else {
                    None
                },
                None => None,
            }
        }
    } else {
        None
    }
}

/// A string body parses back to what was escaped: the escape of `v` followed
/// by the closing quote decodes to exactly `v`.
proof fn lemma_parse_esc_body(s: Seq<char>, i: int, v: Seq<char>)
    requires
        seg(s, i, esc(v) + seq!['"']),
    ensures
        spec_parse_str_body(s, i) == Some((v, i + esc(v).len() + 1)),
    decreases v.len(),
{
    lemma_seg_split(s, i, esc(v), seq!['"']);
    lemma_seg_index(s, i + esc(v).len(), seq!['"'], 0);
    assert(s[i + esc(v).len()] == '"');
    if v.len() == 0 {
        assert(s[i] == '"');
        assert(spec_parse_str_body(s, i) == Some((Seq::<char>::empty(), i + 1)));
        assert(Seq::<char>::empty() =~= v);
    } else {
        let c = v[0];
        let e = esc_char(c);
        let v1 = v.drop_first();
        assert(esc(v) == e + esc(v1));
        lemma_seg_split(s, i, e, esc(v1));
        lemma_seg_index(s, i, e, 0);
        if e.len() == 2 {
            lemma_seg_index(s, i, e, 1);
        }
        assert(seg(s, i + e.len(), esc(v1) + seq!['"'])) by {
            assert forall|k: int| 0 <= k < (esc(v1) + seq!['"']).len() implies s[i + e.len() + k]
                == #[trigger] (esc(v1) + seq!['"'])[k] by {
                if k < esc(v1).len() {
                    assert(s[i + e.len() + k] == esc(v1)[k]);
                } else {
                    assert(i + e.len() + k == i + esc(v).len());
                }
            }
        }
        lemma_parse_esc_body(s, i + e.len(), v1);
        if c == '"' || c == '\\' || c == '\n' || c == '\r' || c == '\t' {
            assert(e.len() == 2);
            assert(s[i] == '\\');
            assert(s[i + 1] == e[1]);
            assert(e[1] != 'u');
            assert(unesc_char(e[1]) == Some(c));
            assert(spec_parse_str_body(s, i) == Some((seq![c] + v1, i + esc(v).len() + 1)));
            assert(seq![c] + v1 =~= v);
        } else if (c as int) < 32 {
            lemma_char_code_nonneg(c);
            let hi = c as int / 16;
            let lo = c as int % 16;
            assert(e.len() == 6);
            assert(s[i] == '\\' && s[i + 1] == 'u' && s[i + 2] == '0' && s[i + 3] == '0');
            lemma_seg_index(s, i, e, 4);
            lemma_seg_index(s, i, e, 5);
            assert(s[i + 4] == spec_hex_digit(hi) && s[i + 5] == spec_hex_digit(lo));
            assert(0 <= hi < 16 && 0 <= lo < 16 && hi * 16 + lo == c as int) by (nonlinear_arith)
                requires
                    0 <= (c as int) < 32,
                    hi == (c as int) / 16,
                    lo == (c as int) % 16,
            ;
            assert(spec_hex_val(spec_hex_digit(hi)) == hi);
            assert(spec_hex_val(spec_hex_digit(lo)) == lo);
            assert(spec_ctrl_char(c as int) == c);
            assert(spec_parse_str_body(s, i) == Some((seq![c] + v1, i + esc(v).len() + 1)));
            assert(seq![c] + v1 =~= v);
        } else {
            assert(e == seq![c]);
            assert(s[i] == c);
            assert(c != '"' && c != '\\');
            assert(spec_parse_str_body(s, i) == Some((seq![c] + v1, i + esc(v).len() + 1)));
            assert(seq![c] + v1 =~= v);
        }
    }
}

/// A string token parses back to the string it encodes.
proof fn lemma_parse_string_enc(s: Seq<char>, i: int, v: Seq<char>)
    requires
        seg(s, i, enc_str(v)),
    ensures
        spec_parse_string(s, i) == Some((v, i + enc_str(v).len())),
{
    assert(enc_str(v) == (seq!['"'] + esc(v)) + seq!['"']);
    assert(seg(s, i, seq!['"'] + (esc(v) + seq!['"']))) by {
        assert(seq!['"'] + (esc(v) + seq!['"']) =~= enc_str(v));
    }
    lemma_seg_split(s, i, seq!['"'], esc(v) + seq!['"']);
    lemma_seg_index(s, i, seq!['"'], 0);
    assert(s[i] == '"');
    lemma_parse_esc_body(s, i + 1, v);
}

/// A boolean token parses back to the boolean it encodes.
proof fn lemma_parse_bool_enc(s: Seq<char>, i: int, b: bool)
    requires
        seg(s, i, enc_bool(b)),
    ensures
        spec_parse_bool(s, i) == Some((b, i + enc_bool(b).len())),
{
    reveal_strlit("true");
    reveal_strlit("false");
    if b {
        assert(seg(s, i, "true"@));
    } else {
        assert(seg(s, i, "false"@));
        lemma_seg_index(s, i, "false"@, 0);
        assert(s[i] == 'f');
        if seg(s, i, "true"@) {
            lemma_seg_index(s, i, "true"@, 0);
            assert(false);
        }
    }
}

/// The items of an encoded string array, from `idx` on, parse back to the
/// remaining strings.
proof fn lemma_parse_strlist_items_enc(s: Seq<char>, i: int, fs: Seq<Seq<char>>, idx: int)
    requires
        0 <= idx < fs.len(),
        seg(s, i, enc_strlist_from(fs, idx) + seq![']']),
    ensures
        spec_parse_strlist_items(s, i) == Some(
            (fs.skip(idx), i + enc_strlist_from(fs, idx).len() + 1),
        ),
    decreases fs.len() - idx,
{
    lemma_seg_split(s, i, enc_strlist_from(fs, idx), seq![']']);
    if idx == fs.len() - 1 {
        assert(enc_strlist_from(fs, idx) == enc_str(fs[idx]));
        lemma_parse_string_enc(s, i, fs[idx]);
        let j = i + enc_str(fs[idx]).len();
        lemma_seg_index(s, i + enc_strlist_from(fs, idx).len(), seq![']'], 0);
        assert(s[j] == ']');
        assert(seq![fs[idx]] =~= fs.skip(idx));
    } else {
        assert(enc_strlist_from(fs, idx) == (enc_str(fs[idx]) + seq![',']) + enc_strlist_from(
            fs,
            idx + 1,
        ));
        assert(seg(s, i, (enc_str(fs[idx]) + seq![',']) + (enc_strlist_from(fs, idx + 1)
            + seq![']']))) by {
            assert((enc_str(fs[idx]) + seq![',']) + (enc_strlist_from(fs, idx + 1) + seq![']'])
                =~= enc_strlist_from(fs, idx) + seq![']']);
        }
        lemma_seg_split(
            s,
            i,
            enc_str(fs[idx]) + seq![','],
            enc_strlist_from(fs, idx + 1) + seq![']'],
        );
        lemma_seg_split(s, i, enc_str(fs[idx]), seq![',']);
        lemma_parse_string_enc(s, i, fs[idx]);
        let j = i + enc_str(fs[idx]).len();
        lemma_seg_index(s, j, seq![','], 0);
        assert(s[j] == ',');
        lemma_parse_strlist_items_enc(s, j + 1, fs, idx + 1);
        assert(seq![fs[idx]] + fs.skip(idx + 1) =~= fs.skip(idx));
    }
}

/// An encoded string array parses back to the strings it encodes.
proof fn lemma_parse_strlist_enc(s: Seq<char>, i: int, fs: Seq<Seq<char>>)
    requires
        seg(s, i, enc_strlist(fs)),
    ensures
        spec_parse_strlist(s, i) == Some((fs, i + enc_strlist(fs).len())),
{
    assert(seg(s, i, seq!['['] + (enc_strlist_from(fs, 0) + seq![']']))) by {
        assert(seq!['['] + (enc_strlist_from(fs, 0) + seq![']']) =~= enc_strlist(fs));
    }
    lemma_seg_split(s, i, seq!['['], enc_strlist_from(fs, 0) + seq![']']);
    lemma_seg_index(s, i, seq!['['], 0);
    assert(s[i] == '[');
    if fs.len() == 0 {
        assert(enc_strlist_from(fs, 0) == Seq::<char>::empty());
        lemma_seg_split(s, i + 1, enc_strlist_from(fs, 0), seq![']']);
        lemma_seg_index(s, i + 1, seq![']'], 0);
        assert(s[i + 1] == ']');
        assert(Seq::<Seq<char>>::empty() =~= fs);
    } else {
        assert(s[i + 1] == enc_strlist_from(fs, 0)[0]) by {
            lemma_seg_split(s, i + 1, enc_strlist_from(fs, 0), seq![']']);
            lemma_seg_index(s, i + 1, enc_strlist_from(fs, 0), 0);
        }
        assert(enc_strlist_from(fs, 0)[0] == '"') by {
            if fs.len() == 1 {
                assert(enc_strlist_from(fs, 0) == enc_str(fs[0]));
            } else {
                assert(enc_strlist_from(fs, 0)[0] == ((enc_str(fs[0]) + seq![','])
                    + enc_strlist_from(fs, 1))[0]);
            }
            assert(enc_str(fs[0])[0] == '"');
        }
        lemma_parse_strlist_items_enc(s, i + 1, fs, 0);
        assert(fs.skip(0) =~= fs);
    }
}

/// An encoded message object parses back to the message it encodes.
#[verifier::rlimit(100)]
#[verifier::spinoff_prover]
proof fn lemma_parse_msg_enc(s: Seq<char>, i: int, m: MsgV)
    requires
        seg(s, i, enc_msg(m)),
    ensures
        spec_parse_msg(s, i) == Some((m, i + enc_msg(m).len())),
{
    reveal_strlit("user");
    reveal_strlit("assistant");
    reveal_strlit(",\"files\":");
    reveal_strlit("}");
    let x1 = "{\"role\":"@;
    let x2 = enc_str(role_name(m.role));
    let x3 = ",\"content\":"@;
    let x4 = enc_str(m.content);
    let x5 = ",\"model\":"@;
    let x6 = enc_str(m.model);
    let x7 = ",\"time\":"@;
    let x8 = spec_dec(m.time as int);
    let x9 = ",\"files\":"@;
    let x10 = enc_strlist(m.files);
    let x11 = ",\"is_generating\":"@;
    let x12 = enc_bool(m.is_generating);
    let x13 = ",\"is_error\":"@;
    let x14 = enc_bool(m.is_error);
    let x15 = ",\"is_thought\":"@;
    let x16 = enc_bool(m.is_thought);
    let x17 = ",\"is_prepending\":"@;
    let x18 = enc_bool(m.is_prepending);
    let x19 = seq!['}'];
    let p1 = x1;
    let p2 = p1 + x2;
    let p3 = p2 + x3;
    let p4 = p3 + x4;
    let p5 = p4 + x5;
    let p6 = p5 + x6;
    let p7 = p6 + x7;
    let p8 = p7 + x8;
    let p9 = p8 + x9;
    let p10 = p9 + x10;
    let p11 = p10 + x11;
    let p12 = p11 + x12;
    let p13 = p12 + x13;
    let p14 = p13 + x14;
    let p15 = p14 + x15;
    let p16 = p15 + x16;
    let p17 = p16 + x17;
    let p18 = p17 + x18;
    assert(seg(s, i, p18 + x19));
    lemma_seg_split(s, i, p18, x19);
    lemma_seg_split(s, i, p17, x18);
    lemma_seg_split(s, i, p16, x17);
    lemma_seg_split(s, i, p15, x16);
    lemma_seg_split(s, i, p14, x15);
    lemma_seg_split(s, i, p13, x14);
    lemma_seg_split(s, i, p12, x13);
    lemma_seg_split(s, i, p11, x12);
    lemma_seg_split(s, i, p10, x11);
    lemma_seg_split(s, i, p9, x10);
    lemma_seg_split(s, i, p8, x9);
    lemma_seg_split(s, i, p7, x8);
    lemma_seg_split(s, i, p6, x7);
    lemma_seg_split(s, i, p5, x6);
    lemma_seg_split(s, i, p4, x5);
    lemma_seg_split(s, i, p3, x4);
    lemma_seg_split(s, i, p2, x3);
    lemma_seg_split(s, i, p1, x2);

    // the opening literal and the role string
    assert(spec_parse_lit(s, i, x1) == Some(i + p1.len()));
    lemma_parse_string_enc(s, i + p1.len(), role_name(m.role));
    if m.role is Assistant {
        assert(role_name(m.role) != "user"@);
    }
    // content and model
    assert(spec_parse_lit(s, i + p2.len(), x3) == Some(i + p3.len()));
    lemma_parse_string_enc(s, i + p3.len(), m.content);
    assert(spec_parse_lit(s, i + p4.len(), x5) == Some(i + p5.len()));
    lemma_parse_string_enc(s, i + p5.len(), m.model);
    // time: the digit run is delimited by the comma of the files key
    assert(spec_parse_lit(s, i + p6.len(), x7) == Some(i + p7.len()));
    assert forall|k: int| 0 <= k < x8.len() implies s[i + p7.len() + k] == spec_dec(
        m.time as int,
    )[k] by {
        lemma_seg_index(s, i + p7.len(), x8, k);
    }
    lemma_seg_index(s, i + p8.len(), x9, 0);
    assert(s[i + p8.len()] == ',');
    assert(!spec_is_digit(','));
    lemma_parse_dec(s, i + p7.len(), m.time);
    assert(spec_parse_u64(s, i + p7.len()) == Some((m.time, i + p8.len())));
    // files
    assert(spec_parse_lit(s, i + p8.len(), x9) == Some(i + p9.len()));
    lemma_parse_strlist_enc(s, i + p9.len(), m.files);
    // the flags and the closing brace
    assert(spec_parse_lit(s, i + p10.len(), x11) == Some(i + p11.len()));
    lemma_parse_bool_enc(s, i + p11.len(), m.is_generating);
    assert(spec_parse_lit(s, i + p12.len(), x13) == Some(i + p13.len()));
    lemma_parse_bool_enc(s, i + p13.len(), m.is_error);
    assert(spec_parse_lit(s, i + p14.len(), x15) == Some(i + p15.len()));
    lemma_parse_bool_enc(s, i + p15.len(), m.is_thought);
    assert(spec_parse_lit(s, i + p16.len(), x17) == Some(i + p17.len()));
    lemma_parse_bool_enc(s, i + p17.len(), m.is_prepending);
    assert("}"@ =~= x19);
    assert(spec_parse_lit(s, i + p18.len(), "}"@) == Some(i + p18.len() + 1));
    assert(spec_parse_msg(s, i) == Some((m, i + enc_msg(m).len())));
}

/// The items of an encoded message array, from `idx` on, parse back to the
/// remaining messages.
#[verifier::rlimit(100)]
#[verifier::spinoff_prover]
proof fn lemma_parse_msgs_items_enc(s: Seq<char>, i: int, ms: Seq<MsgV>, idx: int)
    requires
        0 <= idx < ms.len(),
        seg(s, i, enc_msgs_from(ms, idx) + seq![']']),
    ensures
        spec_parse_msgs_items(s, i) == Some(
            (ms.skip(idx), i + enc_msgs_from(ms, idx).len() + 1),
        ),
    decreases ms.len() - idx,
{
    lemma_seg_split(s, i, enc_msgs_from(ms, idx), seq![']']);
    if idx == ms.len() - 1 {
        assert(enc_msgs_from(ms, idx) == enc_msg(ms[idx]));
        lemma_parse_msg_enc(s, i, ms[idx]);
        let j = i + enc_msg(ms[idx]).len();
        lemma_seg_index(s, i + enc_msgs_from(ms, idx).len(), seq![']'], 0);
        assert(s[j] == ']');
        assert(enc_msg(ms[idx]).len() > 0);
        assert(seq![ms[idx]] =~= ms.skip(idx));
    } else {
        assert(enc_msgs_from(ms, idx) == (enc_msg(ms[idx]) + seq![',']) + enc_msgs_from(
            ms,
            idx + 1,
        ));
        assert(seg(s, i, (enc_msg(ms[idx]) + seq![',']) + (enc_msgs_from(ms, idx + 1)
            + seq![']']))) by {
            assert((enc_msg(ms[idx]) + seq![',']) + (enc_msgs_from(ms, idx + 1) + seq![']'])
                =~= enc_msgs_from(ms, idx) + seq![']']);
        }
        lemma_seg_split(
            s,
            i,
            enc_msg(ms[idx]) + seq![','],
            enc_msgs_from(ms, idx + 1) + seq![']'],
        );
        lemma_seg_split(s, i, enc_msg(ms[idx]), seq![',']);
        lemma_parse_msg_enc(s, i, ms[idx]);
        let j = i + enc_msg(ms[idx]).len();
        lemma_seg_index(s, j, seq![','], 0);
        assert(s[j] == ',');
        assert(enc_msg(ms[idx]).len() > 0);
        lemma_parse_msgs_items_enc(s, j + 1, ms, idx + 1);
        assert(seq![ms[idx]] + ms.skip(idx + 1) =~= ms.skip(idx));
    }
}

/// Round trip: decoding an exported document reproduces the identical
/// ordered message sequence — every content, role, attachment list,
/// timestamp and flag.
#[verifier::rlimit(100)]
#[verifier::spinoff_prover]
pub proof fn lemma_export_import_round_trip(ms: Seq<MsgV>)
    ensures
        spec_import(enc_doc(ms)) == Some(ms),
{
    reveal_strlit("{\"role\":");
    let s = enc_doc(ms);
    assert(seg(s, 0, seq!['['] + (enc_msgs_from(ms, 0) + seq![']']))) by {
        assert(seq!['['] + (enc_msgs_from(ms, 0) + seq![']']) =~= s);
        assert forall|k: int|
            0 <= k < (seq!['['] + (enc_msgs_from(ms, 0) + seq![']'])).len() implies s[0 + k]
            == #[trigger] (seq!['['] + (enc_msgs_from(ms, 0) + seq![']']))[k] by {}
    }
    lemma_seg_split(s, 0, seq!['['], enc_msgs_from(ms, 0) + seq![']']);
    lemma_seg_index(s, 0, seq!['['], 0);
    assert(s[0] == '[');
    if ms.len() == 0 {
        assert(enc_msgs_from(ms, 0) == Seq::<char>::empty());
        lemma_seg_index(s, 1, enc_msgs_from(ms, 0) + seq![']'], 0);
        assert(s[1] == ']');
        assert(s.len() == 2);
        assert(Seq::<MsgV>::empty() =~= ms);
    } else {
        lemma_seg_index(s, 1, enc_msgs_from(ms, 0) + seq![']'], 0);
        assert(s[1] == (enc_msgs_from(ms, 0) + seq![']'])[0]);
        assert(enc_msgs_from(ms, 0)[0] == '{') by {
            if ms.len() == 1 {
                assert(enc_msgs_from(ms, 0) == enc_msg(ms[0]));
            } else {
                assert(enc_msgs_from(ms, 0)[0] == ((enc_msg(ms[0]) + seq![','])
                    + enc_msgs_from(ms, 1))[0]);
            }
            assert(enc_msg(ms[0])[0] == "{\"role\":"@[0]);
        }
        assert(s[1] == '{');
        assert(s.len() >= 2);
        lemma_parse_msgs_items_enc(s, 1, ms, 0);
        assert(ms.skip(0) =~= ms);
        assert(1 + enc_msgs_from(ms, 0).len() + 1 == s.len());
    }
}

/// Parses a literal, as `spec_parse_lit` states.
fn parse_lit_at(s: &Vec<char>, pos: usize, lit: &Vec<char>) -> (r: Option<usize>)
    requires
        pos <= s@.len(),
    ensures
        match r {
            Some(j) => spec_parse_lit(s@, pos as int, lit@) == Some(j as int) && pos <= j
                <= s@.len() && j == pos + lit@.len(),
            None => spec_parse_lit(s@, pos as int, lit@) is None,
        },
{
    let m = lit.len();
    let sl = s.len();
    if matches_at(s, pos, lit) {
        proof {
            assert forall|k: int| 0 <= k < lit@.len() implies s@[pos + k] == #[trigger] lit@[k] by {
                assert(s@.skip(pos as int)[k] == lit@[k]);
            }
            assert(seg(s@, pos as int, lit@));
            assert(pos + m <= sl);
        }
        Some(pos + m)
    } else {
        proof {
            if seg(s@, pos as int, lit@) {
                assert(s@.skip(pos as int).take(lit@.len() as int) =~= lit@) by {
                    assert forall|k: int|
                        0 <= k < lit@.len() implies s@.skip(pos as int).take(lit@.len() as int)[k]
                        == lit@[k] by {
                        lemma_seg_index(s@, pos as int, lit@, k);
                    }
                }
            }
        }
        None
    }
}

/// The value of a lowercase hex digit, as `spec_hex_val` states.
fn hex_val_char(c: char) -> (r: Option<u32>)
    ensures
        r is Some <==> spec_hex_val(c) >= 0,
        r matches Some(v) ==> v == spec_hex_val(c) && v < 16,
{
    match c {
        '0' => Some(0),
        '1' => Some(1),
        '2' => Some(2),
        '3' => Some(3),
        '4' => Some(4),
        '5' => Some(5),
        '6' => Some(6),
        '7' => Some(7),
        '8' => Some(8),
        '9' => Some(9),
        'a' => Some(10),
        'b' => Some(11),
        'c' => Some(12),
        'd' => Some(13),
        'e' => Some(14),
        'f' => Some(15),
        _ => None,
    }
}

/// The control character with the given code point, as `spec_ctrl_char`
/// states.
fn ctrl_char_of(v: u32) -> (r: char)
    requires
        v < 32,
    ensures
        r == spec_ctrl_char(v as int),
{
    match v {
        0 => '\u{0}',
        1 => '\u{1}',
        2 => '\u{2}',
        3 => '\u{3}',
        4 => '\u{4}',
        5 => '\u{5}',
        6 => '\u{6}',
        7 => '\u{7}',
        8 => '\u{8}',
        9 => '\u{9}',
        10 => '\u{a}',
        11 => '\u{b}',
        12 => '\u{c}',
        13 => '\u{d}',
        14 => '\u{e}',
        15 => '\u{f}',
        16 => '\u{10}',
        17 => '\u{11}',
        18 => '\u{12}',
        19 => '\u{13}',
        20 => '\u{14}',
        21 => '\u{15}',
        22 => '\u{16}',
        23 => '\u{17}',
        24 => '\u{18}',
        25 => '\u{19}',
        26 => '\u{1a}',
        27 => '\u{1b}',
        28 => '\u{1c}',
        29 => '\u{1d}',
        30 => '\u{1e}',
        31 => '\u{1f}',
        _ => '\u{1f}',
    }
}

/// Parses a string token, as `spec_parse_string` states.
fn parse_string_at(s: &Vec<char>, pos: usize) -> (r: Option<(Vec<char>, usize)>)
    requires
        pos <= s@.len(),
    ensures
        match r {
            Some(v) => spec_parse_string(s@, pos as int) == Some((v.0@, v.1 as int)) && pos < v.1
                <= s@.len(),
            None => spec_parse_string(s@, pos as int) is None,
        },
{
    let n = s.len();
    if pos >= n || s[pos] != '"' {
        return None;
    }
    let mut out: Vec<char> = Vec::new();
    let mut i = pos + 1;
    proof {
        assert(out@ =~= Seq::<char>::empty());
    }
    while i < n
        invariant
            n == s@.len(),
            pos < i <= n,
            pos < s@.len() && s@[pos as int] == '"',
            spec_parse_str_body(s@, pos + 1) == (match spec_parse_str_body(s@, i as int) {
                Some((t, j)) => Some((out@ + t, j)),
                None => None,
            }),
        decreases n - i,
    {
        let c = s[i];
        if c == '"' {
            proof {
                assert(out@ + Seq::<char>::empty() =~= out@);
            }
            return Some((out, i + 1));
        } else if c == '\\' {
            if i + 1 >= n {
                return None;
            }
            let e = s[i + 1];
            if e == 'u' {
                if n - i <= 5 {
                    return None;
                }
                if s[i + 2] != '0' || s[i + 3] != '0' {
                    return None;
                }
                let v4 = hex_val_char(s[i + 4]);
                let v5 = hex_val_char(s[i + 5]);
                let (h4, h5) = match (v4, v5) {
                    (Some(a), Some(b)) => (a, b),
                    _ => {
                        return None;
                    },
                };
                let v = h4 * 16 + h5;
                if v >= 32 {
                    return None;
                }
                let d = ctrl_char_of(v);
                let ghost pre = out@;
                out.push(d);
                i += 6;
                proof {
                    let b = spec_parse_str_body(s@, i as int);
                    if b is Some {
                        let t = b->Some_0.0;
                        assert(pre + (seq![d] + t) =~= out@ + t);
                    }
                }
            } else {
                let u = if e == '"' {
                    Some('"')
                } else if e == '\\' {
                    Some('\\')
                } else if e == 'n' {
                    Some('\n')
                } else if e == 'r' {
                    Some('\r')
                } else if e == 't' {
                    Some('\t')
                } else {
                    None
                };
                assert(u == unesc_char(e));
                match u {
                    Some(d) => {
                        let ghost pre = out@;
                        out.push(d);
                        i += 2;
                        proof {
                            let b = spec_parse_str_body(s@, i as int);
                            if b is Some {
                                let t = b->Some_0.0;
                                assert(pre + (seq![d] + t) =~= out@ + t);
                            }
                        }
                    },
                    None => {
                        return None;
                    },
                }
            }
        } else {
            let ghost pre = out@;
            out.push(c);
            i += 1;
            proof {
                let b = spec_parse_str_body(s@, i as int);
                if b is Some {
                    let t = b->Some_0.0;
                    assert(pre + (seq![c] + t) =~= out@ + t);
                }
            }
        }
    }
    None
}

/// Whether two character vectors hold the same characters.
fn chars_eq(a: &Vec<char>, b: &Vec<char>) -> (r: bool)
    ensures
        r == (a@ == b@),
{
    if a.len() != b.len() {
        return false;
    }
    let r = matches_at(a, 0, b);
    proof {
        assert(a@.skip(0) =~= a@);
        if r {
            assert(a@.take(b@.len() as int) =~= a@);
        }
    }
    r
}

/// Parses a boolean token, as `spec_parse_bool` states.
fn parse_bool_at(s: &Vec<char>, pos: usize) -> (r: Option<(bool, usize)>)
    requires
        pos <= s@.len(),
    ensures
        match r {
            Some(v) => spec_parse_bool(s@, pos as int) == Some((v.0, v.1 as int)) && pos < v.1
                <= s@.len(),
            None => spec_parse_bool(s@, pos as int) is None,
        },
{
    proof {
        reveal_strlit("true");
        reveal_strlit("false");
    }
    let t = chars_of("true");
    let f = chars_of("false");
    match parse_lit_at(s, pos, &t) {
        Some(j) => Some((true, j)),
        None => match parse_lit_at(s, pos, &f) {
            Some(j) => Some((false, j)),
            None => None,
        },
    }
}

/// Parses a string array, as `spec_parse_strlist` states.
fn parse_strlist_at(s: &Vec<char>, pos: usize) -> (r: Option<(Vec<String>, usize)>)
    requires
        pos <= s@.len(),
    ensures
        match r {
            Some(v) => spec_parse_strlist(s@, pos as int) == Some((v.0.deep_view(), v.1 as int))
                && pos < v.1 <= s@.len(),
            None => spec_parse_strlist(s@, pos as int) is None,
        },
{
    let n = s.len();
    if pos >= n || s[pos] != '[' {
        return None;
    }
    if pos + 1 < n && s[pos + 1] == ']' {
        let out: Vec<String> = Vec::new();
        proof {
            assert(out.deep_view() =~= Seq::<Seq<char>>::empty());
        }
        return Some((out, pos + 2));
    }
    let mut acc: Vec<String> = Vec::new();
    let mut i = pos + 1;
    proof {
        assert(acc.deep_view() =~= Seq::<Seq<char>>::empty());
        let items = spec_parse_strlist_items(s@, pos + 1);
        if items is Some {
            assert(Seq::<Seq<char>>::empty() + items->Some_0.0 =~= items->Some_0.0);
        }
    }
    loop
        invariant
            n == s@.len(),
            pos < i <= n,
            pos < s@.len() && s@[pos as int] == '[',
            !(pos + 1 < s@.len() && s@[pos + 1] == ']'),
            spec_parse_strlist_items(s@, pos + 1) == (match spec_parse_strlist_items(
                s@,
                i as int,
            ) {
                Some((vs, k)) => Some((acc.deep_view() + vs, k)),
                None => None,
            }),
        decreases n - i,
    {
        match parse_string_at(s, i) {
            None => {
                return None;
            },
            Some((v, j)) => {
                let ghost pre = acc.deep_view();
                let ghost vv = v@;
                if j >= n {
                    return None;
                }
                let c = s[j];
                if c == ']' {
                    acc.push(string_of(v));
                    proof {
                        assert(acc.deep_view() =~= pre + seq![vv]);
                    }
                    return Some((acc, j + 1));
                } else if c == ',' {
                    acc.push(string_of(v));
                    i = j + 1;
                    proof {
                        assert(acc.deep_view() =~= pre + seq![vv]);
                        let rest = spec_parse_strlist_items(s@, i as int);
                        if rest is Some {
                            assert(pre + (seq![vv] + rest->Some_0.0) =~= acc.deep_view()
                                + rest->Some_0.0);
                        }
                    }
                } else {
                    return None;
                }
            },
        }
    }
}

/// Parses one message object, as `spec_parse_msg` states.
fn parse_msg_at(s: &Vec<char>, pos: usize) -> (r: Option<(Message, usize)>)
    requires
        pos <= s@.len(),
    ensures
        match r {
            Some(v) => spec_parse_msg(s@, pos as int) == Some((v.0@, v.1 as int)) && pos < v.1
                <= s@.len(),
            None => spec_parse_msg(s@, pos as int) is None,
        },
{
    let i1 = match parse_lit_at(s, pos, &chars_of("{\"role\":")) {
        Some(j) => j,
        None => {
            return None;
        },
    };
    let (rname, i2) = match parse_string_at(s, i1) {
        Some(v) => v,
        None => {
            return None;
        },
    };
    let is_user = chars_eq(&rname, &chars_of("user"));
    let is_assistant = chars_eq(&rname, &chars_of("assistant"));
    if !is_user && !is_assistant {
        return None;
    }
    let role = if is_user {
        Role::User
    } else {
        Role::Assistant
    };
    let i3 = match parse_lit_at(s, i2, &chars_of(",\"content\":")) {
        Some(j) => j,
        None => {
            return None;
        },
    };
    let (content, i4) = match parse_string_at(s, i3) {
        Some(v) => v,
        None => {
            return None;
        },
    };
    let i5 = match parse_lit_at(s, i4, &chars_of(",\"model\":")) {
        Some(j) => j,
        None => {
            return None;
        },
    };
    let (model, i6) = match parse_string_at(s, i5) {
        Some(v) => v,
        None => {
            return None;
        },
    };
    let i7 = match parse_lit_at(s, i6, &chars_of(",\"time\":")) {
        Some(j) => j,
        None => {
            return None;
        },
    };
    let (time, i8) = match parse_u64_at(s, i7) {
        Some(v) => v,
        None => {
            return None;
        },
    };
    let i9 = match parse_lit_at(s, i8, &chars_of(",\"files\":")) {
        Some(j) => j,
        None => {
            return None;
        },
    };
    let (files, i10) = match parse_strlist_at(s, i9) {
        Some(v) => v,
        None => {
            return None;
        },
    };
    let i11 = match parse_lit_at(s, i10, &chars_of(",\"is_generating\":")) {
        Some(j) => j,
        None => {
            return None;
        },
    };
    let (is_generating, i12) = match parse_bool_at(s, i11) {
        Some(v) => v,
        None => {
            return None;
        },
    };
    let i13 = match parse_lit_at(s, i12, &chars_of(",\"is_error\":")) {
        Some(j) => j,
        None => {
            return None;
        },
    };
    let (is_error, i14) = match parse_bool_at(s, i13) {
        Some(v) => v,
        None => {
            return None;
        },
    };
    let i15 = match parse_lit_at(s, i14, &chars_of(",\"is_thought\":")) {
        Some(j) => j,
        None => {
            return None;
        },
    };
    let (is_thought, i16) = match parse_bool_at(s, i15) {
        Some(v) => v,
        None => {
            return None;
        },
    };
    let i17 = match parse_lit_at(s, i16, &chars_of(",\"is_prepending\":")) {
        Some(j) => j,
        None => {
            return None;
        },
    };
    let (is_prepending, i18) = match parse_bool_at(s, i17) {
        Some(v) => v,
        None => {
            return None;
        },
    };
    let end = match parse_lit_at(s, i18, &chars_of("}")) {
        Some(j) => j,
        None => {
            return None;
        },
    };
    let m = Message {
        role,
        content: string_of(content),
        model: string_of(model),
        time,
        files,
        is_generating,
        is_error,
        is_thought,
        is_prepending,
    };
    proof {
        let spec_m = spec_parse_msg(s@, pos as int)->Some_0.0;
        assert(m@ =~~= spec_m);
    }
    Some((m, end))
}

/// Decodes a document `export_json` wrote, as `spec_import` states: the full
/// message array, which must cover the input exactly.
pub fn import_json(s: &str) -> (r: Option<Vec<Message>>)
    ensures
        match r {
            Some(ms) => spec_import(s@) == Some(ms.deep_view()),
            None => spec_import(s@) is None,
        },
{
    let cs = chars_of(s);
    let n = cs.len();
    if n < 2 || cs[0] != '[' {
        return None;
    }
    if cs[1] == ']' {
        if n == 2 {
            let out: Vec<Message> = Vec::new();
            proof {
                assert(out.deep_view() =~= Seq::<MsgV>::empty());
            }
            return Some(out);
        } else {
            return None;
        }
    }
    let mut acc: Vec<Message> = Vec::new();
    let mut i: usize = 1;
    proof {
        assert(acc.deep_view() =~= Seq::<MsgV>::empty());
        let items = spec_parse_msgs_items(s@, 1);
        if items is Some {
            assert(Seq::<MsgV>::empty() + items->Some_0.0 =~= items->Some_0.0);
        }
    }
    loop
        invariant
            n == s@.len(),
            cs@ == s@,
            1 <= i <= n,
            n >= 2 && s@[0] == '[' && s@[1] != ']',
            spec_parse_msgs_items(s@, 1) == (match spec_parse_msgs_items(s@, i as int) {
                Some((ms, k)) => Some((acc.deep_view() + ms, k)),
                None => None,
            }),
        decreases n - i,
    {
        match parse_msg_at(&cs, i) {
            None => {
                return None;
            },
            Some((m, j)) => {
                let ghost pre = acc.deep_view();
                let ghost mv = m@;
                if j >= n {
                    return None;
                }
                let c = cs[j];
                if c == ']' {
                    acc.push(m);
                    proof {
                        assert(acc.deep_view() =~= pre + seq![mv]);
                    }
                    if j + 1 == n {
                        return Some(acc);
                    } else {
                        return None;
                    }
                } else if c == ',' {
                    acc.push(m);
                    i = j + 1;
                    proof {
                        assert(acc.deep_view() =~= pre + seq![mv]);
                        let rest = spec_parse_msgs_items(s@, i as int);
                        if rest is Some {
                            assert(pre + (seq![mv] + rest->Some_0.0) =~= acc.deep_view()
                                + rest->Some_0.0);
                        }
                    }
                } else {
                    return None;
                }
            },
        }
    }
}

} // verus!
