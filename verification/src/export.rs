//! Export of a conversation's history: plaintext lines, and a structured
//! JSON form with a verified decoder, so that exporting and re-importing
//! reproduces the identical message sequence.

use vstd::prelude::*;

use crate::msg::{Message, MsgV, Role};
use crate::numfmt::{push_dec, spec_dec};
use crate::textutil::string_of;

verus! {

/// The formats history can be exported in.
#[derive(Debug, Default, PartialEq, Eq, Clone, Copy, Structural)]
pub enum ChatExportFormat {
    #[default]
    Plaintext,
    Json,
    Ron,
}

impl ChatExportFormat {
    /// The file extensions offered for each format.
    pub fn extensions(self) -> (r: &'static [&'static str])
        ensures
            r@.len() == 1,
            self is Plaintext ==> r@[0]@ == "txt"@,
            self is Json ==> r@[0]@ == "json"@,
            self is Ron ==> r@[0]@ == "ron"@,
    {
        match self {
            ChatExportFormat::Plaintext => {
                let r: &'static [&'static str] = &["txt"];
                proof {
                    assert(r@ =~= seq!["txt"]);
                }
                r
            },
            ChatExportFormat::Json => {
                let r: &'static [&'static str] = &["json"];
                proof {
                    assert(r@ =~= seq!["json"]);
                }
                r
            },
            ChatExportFormat::Ron => {
                let r: &'static [&'static str] = &["ron"];
                proof {
                    assert(r@ =~= seq!["ron"]);
                }
                r
            },
        }
    }

    /// Every format, in display order.
    pub fn all() -> (r: [ChatExportFormat; 3])
        ensures
            r@ == seq![
                ChatExportFormat::Plaintext,
                ChatExportFormat::Json,
                ChatExportFormat::Ron,
            ],
    {
        let r = [ChatExportFormat::Plaintext, ChatExportFormat::Json, ChatExportFormat::Ron];
        proof {
            assert(r@ =~= seq![
                ChatExportFormat::Plaintext,
                ChatExportFormat::Json,
                ChatExportFormat::Ron,
            ]);
        }
        r
    }

    /// The format's display name.
    pub fn label(self) -> (r: String)
        ensures
            self is Plaintext ==> r@ == "Plaintext"@,
            self is Json ==> r@ == "Json"@,
            self is Ron ==> r@ == "Ron"@,
    {
        match self {
            ChatExportFormat::Plaintext => "Plaintext".to_owned(),
            ChatExportFormat::Json => "Json".to_owned(),
            ChatExportFormat::Ron => "Ron".to_owned(),
        }
    }
}

/// The lowercase hex digit for a value below sixteen.
pub open spec fn spec_hex_digit(d: int) -> char
    recommends
        0 <= d < 16,
{
    if d == 0 {
        '0'
    } else if d == 1 {
        '1'
    } else if d == 2 {
        '2'
    } else if d == 3 {
        '3'
    } else if d == 4 {
        '4'
    } else if d == 5 {
        '5'
    } else if d == 6 {
        '6'
    } else if d == 7 {
        '7'
    } else if d == 8 {
        '8'
    } else if d == 9 {
        '9'
    } else if d == 10 {
        'a'
    } else if d == 11 {
        'b'
    } else if d == 12 {
        'c'
    } else if d == 13 {
        'd'
    } else if d == 14 {
        'e'
    } else if d == 15 {
        'f'
    } else {
        'f'
    }
}

/// The escape of one character inside a JSON string: quote, backslash and
/// the named control characters take their short escapes, every other
/// control character its `\u00..` form, and everything else stands as is —
/// so the document is a JSON document for every content.
pub open spec fn esc_char(c: char) -> Seq<char> {
    if c == '"' {
        seq!['\\', '"']
    } else if c == '\\' {
        seq!['\\', '\\']
    } else if c == '\n' {
        seq!['\\', 'n']
    } else if c == '\r' {
        seq!['\\', 'r']
    } else if c == '\t' {
        seq!['\\', 't']
    } else if (c as int) < 32 {
        seq!['\\', 'u', '0', '0', spec_hex_digit(c as int / 16), spec_hex_digit(c as int % 16)]
    } else {
        seq![c]
    }
}

/// The escaped form of a string's characters.
pub open spec fn esc(s: Seq<char>) -> Seq<char>
    decreases s.len(),
{
    if s.len() == 0 {
        Seq::<char>::empty()
    } else {
        esc_char(s[0]) + esc(s.drop_first())
    }
}

/// A JSON string token: the escaped characters between quotes.
pub open spec fn enc_str(v: Seq<char>) -> Seq<char> {
    seq!['"'] + esc(v) + seq!['"']
}

/// A JSON boolean token.
pub open spec fn enc_bool(b: bool) -> Seq<char> {
    if b {
        "true"@
    } else {
        "false"@
    }
}

/// The items of a JSON array of strings, from position `i` on, with commas
/// between them.
pub open spec fn enc_strlist_from(fs: Seq<Seq<char>>, i: int) -> Seq<char>
    decreases fs.len() - i,
{
    if i < 0 || i >= fs.len() {
        Seq::<char>::empty()
    } else if i == fs.len() - 1 {
        enc_str(fs[i])
    } else {
        enc_str(fs[i]) + seq![','] + enc_strlist_from(fs, i + 1)
    }
}

/// A JSON array of strings.
pub open spec fn enc_strlist(fs: Seq<Seq<char>>) -> Seq<char> {
    seq!['['] + enc_strlist_from(fs, 0) + seq![']']
}

/// The name a role is serialized as.
pub open spec fn role_name(r: Role) -> Seq<char> {
    if r is User {
        "user"@
    } else {
        "assistant"@
    }
}

/// A message as one JSON object, every field of the model in a fixed order.
pub open spec fn enc_msg(m: MsgV) -> Seq<char> {
    "{\"role\":"@ + enc_str(role_name(m.role)) + ",\"content\":"@ + enc_str(m.content)
        + ",\"model\":"@ + enc_str(m.model) + ",\"time\":"@ + spec_dec(m.time as int)
        + ",\"files\":"@ + enc_strlist(m.files) + ",\"is_generating\":"@ + enc_bool(
        m.is_generating,
    ) + ",\"is_error\":"@ + enc_bool(m.is_error) + ",\"is_thought\":"@ + enc_bool(m.is_thought)
        + ",\"is_prepending\":"@ + enc_bool(m.is_prepending) + seq!['}']
}

/// The items of the message array, from position `i` on.
pub open spec fn enc_msgs_from(ms: Seq<MsgV>, i: int) -> Seq<char>
    decreases ms.len() - i,
{
    if i < 0 || i >= ms.len() {
        Seq::<char>::empty()
    } else if i == ms.len() - 1 {
        enc_msg(ms[i])
    } else {
        enc_msg(ms[i]) + seq![','] + enc_msgs_from(ms, i + 1)
    }
}

/// A whole conversation as one JSON document: the array of its messages.
pub open spec fn enc_doc(ms: Seq<MsgV>) -> Seq<char> {
    seq!['['] + enc_msgs_from(ms, 0) + seq![']']
}

/// The role's display name in a plaintext export line.
pub open spec fn role_debug(r: Role) -> Seq<char> {
    if r is User {
        "User"@
    } else {
        "Assistant"@
    }
}

/// Whether a millisecond timestamp lies on the calendar the date library
/// covers.
pub uninterp spec fn spec_rfc3339_in_range(t: u64) -> bool;

/// The RFC 3339 rendering of a millisecond timestamp, in UTC: a function of
/// the timestamp alone.
pub uninterp spec fn spec_rfc3339(t: u64) -> Seq<char>;

/// Relies on chrono's `DateTime::from_timestamp_millis` and `to_rfc3339`:
/// the conversion accepts exactly the timestamps chrono's calendar covers,
/// and the rendering of a UTC datetime is deterministic, locale-free, a
/// function of the timestamp alone.
#[verifier::external_body]
fn rfc3339_utc(t: u64) -> (r: Option<String>)
    ensures
        r is Some <==> spec_rfc3339_in_range(t),
        r matches Some(s) ==> s@ == spec_rfc3339(t),
{
    match i64::try_from(t) {
        Ok(ms) => chrono::DateTime::from_timestamp_millis(ms).map(|d| d.to_rfc3339()),
        Err(_) => None,
    }
}

/// The timestamp of a plaintext line: its RFC 3339 form, or the raw
/// millisecond count for the timestamps past the calendar's range.
pub open spec fn spec_timestamp(t: u64) -> Seq<char> {
    if spec_rfc3339_in_range(t) {
        spec_rfc3339(t)
    } else {
        spec_dec(t as int)
    }
}

/// One plaintext export line: timestamp, role, model and content.
pub open spec fn plaintext_line(m: MsgV) -> Seq<char> {
    spec_timestamp(m.time) + " - "@ + role_debug(m.role) + " ("@ + m.model + "): "@ + m.content
        + "\n"@
}

/// The plaintext export of the messages from `i` on, one line each.
pub open spec fn plaintext_from(ms: Seq<MsgV>, i: int) -> Seq<char>
    decreases ms.len() - i,
{
    if i < 0 || i >= ms.len() {
        Seq::<char>::empty()
    } else {
        plaintext_line(ms[i]) + plaintext_from(ms, i + 1)
    }
}

/// Renders the whole history as plaintext, one line per message.
#[verifier::rlimit(50)]
pub fn export_plaintext(messages: &Vec<Message>) -> (r: String)
    ensures
        r@ == plaintext_from(messages.deep_view(), 0),
{
    let ghost msv = messages.deep_view();
    let mut out: Vec<char> = Vec::new();
    let n = messages.len();
    let mut i: usize = 0;
    proof {
        assert(out@ + plaintext_from(msv, 0) =~= plaintext_from(msv, 0));
    }
    while i < n
        invariant
            n == messages@.len(),
            msv == messages.deep_view(),
            0 <= i <= n,
            out@ + plaintext_from(msv, i as int) == plaintext_from(msv, 0),
        decreases n - i,
    {
        let m = &messages[i];
        let ghost pre = out@;
        match rfc3339_utc(m.time) {
            Some(stamp) => push_lit(&mut out, stamp.as_str()),
            None => push_dec(&mut out, m.time),
        }
        proof {
            assert(out@ =~= pre + spec_timestamp(msv[i as int].time));
        }
        push_lit(&mut out, " - ");
        match m.role {
            Role::User => push_lit(&mut out, "User"),
            Role::Assistant => push_lit(&mut out, "Assistant"),
        }
        push_lit(&mut out, " (");
        push_lit(&mut out, m.model.as_str());
        push_lit(&mut out, "): ");
        push_lit(&mut out, m.content.as_str());
        push_lit(&mut out, "\n");
        i += 1;
        proof {
            assert(out@ =~= pre + plaintext_line(msv[i - 1]));
            assert(out@ + plaintext_from(msv, i as int) =~= plaintext_from(msv, 0));
        }
    }
    proof {
        assert(out@ =~= plaintext_from(msv, 0));
    }
    string_of(out)
}

/// Renders the history in the chosen format: plaintext lines, or the
/// structured JSON document. The third format's rendering is not a function
/// of the model alone here — it belongs to the serializer that lives with
/// the I/O layer — so this function yields nothing for it.
pub fn export_messages(messages: &Vec<Message>, format: ChatExportFormat) -> (r: Option<String>)
    ensures
        format is Plaintext ==> (r matches Some(t) && t@ == plaintext_from(
            messages.deep_view(),
            0,
        )),
        format is Json ==> (r matches Some(t) && t@ == enc_doc(messages.deep_view())),
        format is Ron ==> r is None,
{
    match format {
        ChatExportFormat::Plaintext => Some(export_plaintext(messages)),
        ChatExportFormat::Json => Some(export_json(messages)),
        ChatExportFormat::Ron => None,
    }
}

/// Appends the characters of `lit` to `out`.
fn push_lit(out: &mut Vec<char>, lit: &str)
    ensures
        final(out)@ == old(out)@ + lit@,
{
    let n = lit.unicode_len();
    let mut i: usize = 0;
    while i < n
        invariant
            n == lit@.len(),
            0 <= i <= n,
            out@ == old(out)@ + lit@.take(i as int),
        decreases n - i,
    {
        out.push(lit.get_char(i));
        i += 1;
        assert(out@ =~= old(out)@ + lit@.take(i as int));
    }
    assert(out@ =~= old(out)@ + lit@);
}

/// The lowercase hex digit for a value below sixteen.
fn hex_digit_char(d: u32) -> (r: char)
    requires
        d < 16,
    ensures
        r == spec_hex_digit(d as int),
{
    match d {
        0 => '0',
        1 => '1',
        2 => '2',
        3 => '3',
        4 => '4',
        5 => '5',
        6 => '6',
        7 => '7',
        8 => '8',
        9 => '9',
        10 => 'a',
        11 => 'b',
        12 => 'c',
        13 => 'd',
        14 => 'e',
        15 => 'f',
        _ => 'f',
    }
}

/// Appends a JSON string token holding `v`'s characters.
fn push_str_token(out: &mut Vec<char>, v: &str)
    ensures
        final(out)@ == old(out)@ + enc_str(v@),
{
    out.push('"');
    let n = v.unicode_len();
    let mut i: usize = 0;
    while i < n
        invariant
            n == v@.len(),
            0 <= i <= n,
            out@ == old(out)@ + seq!['"'] + esc(v@.take(i as int)),
        decreases n - i,
    {
        let c = v.get_char(i);
        if c == '"' {
            out.push('\\');
            out.push('"');
        } else if c == '\\' {
            out.push('\\');
            out.push('\\');
        } else if c == '\n' {
            out.push('\\');
            out.push('n');
        } else if c == '\r' {
            out.push('\\');
            out.push('r');
        } else if c == '\t' {
            out.push('\\');
            out.push('t');
        } else if (c as u32) < 32 {
            let v = c as u32;
            out.push('\\');
            out.push('u');
            out.push('0');
            out.push('0');
            out.push(hex_digit_char(v / 16));
            out.push(hex_digit_char(v % 16));
        } else {
            out.push(c);
        }
        i += 1;
        proof {
            lemma_esc_snoc(v@, i as int);
            assert(out@ =~= old(out)@ + seq!['"'] + esc(v@.take(i as int)));
        }
    }
    out.push('"');
    proof {
        assert(v@.take(n as int) =~= v@);
        assert(out@ =~= old(out)@ + enc_str(v@));
    }
}

/// Escaping one more character appends its escape.
proof fn lemma_esc_snoc(v: Seq<char>, i: int)
    requires
        0 < i <= v.len(),
    ensures
        esc(v.take(i)) == esc(v.take(i - 1)) + esc_char(v[i - 1]),
    decreases i,
{
    if i == 1 {
        assert(v.take(1).drop_first() =~= Seq::<char>::empty());
        assert(v.take(0) =~= Seq::<char>::empty());
        assert(esc(v.take(1)) =~= esc(v.take(0)) + esc_char(v[0]));
    } else {
        lemma_esc_snoc(v.drop_first(), i - 1);
        assert(v.take(i).drop_first() =~= v.drop_first().take(i - 1));
        assert(v.take(i - 1).drop_first() =~= v.drop_first().take(i - 2));
        assert(v.take(i)[0] == v[0]);
        assert(v.take(i - 1)[0] == v[0]);
        assert(v.drop_first()[i - 2] == v[i - 1]);
        assert(esc(v.take(i)) =~= esc(v.take(i - 1)) + esc_char(v[i - 1]));
    }
}

/// Appends a JSON boolean token.
fn push_bool_token(out: &mut Vec<char>, b: bool)
    ensures
        final(out)@ == old(out)@ + enc_bool(b),
{
    if b {
        push_lit(out, "true");
    } else {
        push_lit(out, "false");
    }
}

/// Appends the JSON array of a message's file paths.
fn push_files_token(out: &mut Vec<char>, fs: &Vec<String>)
    ensures
        final(out)@ == old(out)@ + enc_strlist(fs.deep_view()),
{
    let ghost fsv = fs.deep_view();
    out.push('[');
    let n = fs.len();
    let mut i: usize = 0;
    while i < n
        invariant
            n == fs@.len(),
            fsv == fs.deep_view(),
            0 <= i <= n,
            out@ + enc_strlist_from(fsv, i as int) == old(out)@ + seq!['['] + enc_strlist_from(
                fsv,
                0,
            ),
        decreases n - i,
    {
        push_str_token(out, fs[i].as_str());
        if i + 1 < n {
            out.push(',');
        }
        i += 1;
        proof {
            assert(out@ + enc_strlist_from(fsv, i as int) =~= old(out)@ + seq!['[']
                + enc_strlist_from(fsv, 0));
        }
    }
    out.push(']');
    proof {
        assert(out@ =~= old(out)@ + enc_strlist(fsv));
    }
}

/// Appends one message as a JSON object.
#[verifier::rlimit(100)]
fn push_msg_token(out: &mut Vec<char>, m: &Message)
    ensures
        final(out)@ == old(out)@ + enc_msg(m@),
{
    let ghost base = old(out)@;
    push_lit(out, "{\"role\":");
    match m.role {
        Role::User => push_str_token(out, "user"),
        Role::Assistant => push_str_token(out, "assistant"),
    }
    let ghost e1 = base + "{\"role\":"@ + enc_str(role_name(m@.role));
    assert(out@ =~= e1);
    push_lit(out, ",\"content\":");
    push_str_token(out, m.content.as_str());
    let ghost e2 = e1 + ",\"content\":"@ + enc_str(m@.content);
    assert(out@ =~= e2);
    push_lit(out, ",\"model\":");
    push_str_token(out, m.model.as_str());
    let ghost e3 = e2 + ",\"model\":"@ + enc_str(m@.model);
    assert(out@ =~= e3);
    push_lit(out, ",\"time\":");
    push_dec(out, m.time);
    let ghost e4 = e3 + ",\"time\":"@ + spec_dec(m@.time as int);
    assert(out@ =~= e4);
    push_lit(out, ",\"files\":");
    push_files_token(out, &m.files);
    let ghost e5 = e4 + ",\"files\":"@ + enc_strlist(m@.files);
    assert(out@ =~= e5);
    push_lit(out, ",\"is_generating\":");
    push_bool_token(out, m.is_generating);
    let ghost e6 = e5 + ",\"is_generating\":"@ + enc_bool(m@.is_generating);
    assert(out@ =~= e6);
    push_lit(out, ",\"is_error\":");
    push_bool_token(out, m.is_error);
    let ghost e7 = e6 + ",\"is_error\":"@ + enc_bool(m@.is_error);
    assert(out@ =~= e7);
    push_lit(out, ",\"is_thought\":");
    push_bool_token(out, m.is_thought);
    let ghost e8 = e7 + ",\"is_thought\":"@ + enc_bool(m@.is_thought);
    assert(out@ =~= e8);
    push_lit(out, ",\"is_prepending\":");
    push_bool_token(out, m.is_prepending);
    out.push('}');
    let ghost e9 = e8 + ",\"is_prepending\":"@ + enc_bool(m@.is_prepending) + seq!['}'];
    assert(out@ =~= e9);
    proof {
        lemma_enc_msg_assoc(base, m@);
    }
}

/// Prepending a prefix distributes over the field-by-field assembly of a
/// message object.
proof fn lemma_enc_msg_assoc(base: Seq<char>, m: MsgV)
    ensures
        base + "{\"role\":"@ + enc_str(role_name(m.role)) + ",\"content\":"@ + enc_str(m.content)
            + ",\"model\":"@ + enc_str(m.model) + ",\"time\":"@ + spec_dec(m.time as int)
            + ",\"files\":"@ + enc_strlist(m.files) + ",\"is_generating\":"@ + enc_bool(
            m.is_generating,
        ) + ",\"is_error\":"@ + enc_bool(m.is_error) + ",\"is_thought\":"@ + enc_bool(
            m.is_thought,
        ) + ",\"is_prepending\":"@ + enc_bool(m.is_prepending) + seq!['}'] == base + enc_msg(m),
{
    let xs: Seq<Seq<char>> = seq![
        "{\"role\":"@,
        enc_str(role_name(m.role)),
        ",\"content\":"@,
        enc_str(m.content),
        ",\"model\":"@,
        enc_str(m.model),
        ",\"time\":"@,
        spec_dec(m.time as int),
        ",\"files\":"@,
        enc_strlist(m.files),
        ",\"is_generating\":"@,
        enc_bool(m.is_generating),
        ",\"is_error\":"@,
        enc_bool(m.is_error),
        ",\"is_thought\":"@,
        enc_bool(m.is_thought),
        ",\"is_prepending\":"@,
        enc_bool(m.is_prepending),
        seq!['}'],
    ];
    let p1 = xs[0];
    let p2 = p1 + xs[1];
    let p3 = p2 + xs[2];
    let p4 = p3 + xs[3];
    let p5 = p4 + xs[4];
    let p6 = p5 + xs[5];
    let p7 = p6 + xs[6];
    let p8 = p7 + xs[7];
    let p9 = p8 + xs[8];
    let p10 = p9 + xs[9];
    let p11 = p10 + xs[10];
    let p12 = p11 + xs[11];
    let p13 = p12 + xs[12];
    let p14 = p13 + xs[13];
    let p15 = p14 + xs[14];
    let p16 = p15 + xs[15];
    let p17 = p16 + xs[16];
    let p18 = p17 + xs[17];
    let p19 = p18 + xs[18];
    assert(enc_msg(m) == p19);
    vstd::seq_lib::lemma_concat_associative(base, p1, xs[1]);
    vstd::seq_lib::lemma_concat_associative(base, p2, xs[2]);
    vstd::seq_lib::lemma_concat_associative(base, p3, xs[3]);
    vstd::seq_lib::lemma_concat_associative(base, p4, xs[4]);
    vstd::seq_lib::lemma_concat_associative(base, p5, xs[5]);
    vstd::seq_lib::lemma_concat_associative(base, p6, xs[6]);
    vstd::seq_lib::lemma_concat_associative(base, p7, xs[7]);
    vstd::seq_lib::lemma_concat_associative(base, p8, xs[8]);
    vstd::seq_lib::lemma_concat_associative(base, p9, xs[9]);
    vstd::seq_lib::lemma_concat_associative(base, p10, xs[10]);
    vstd::seq_lib::lemma_concat_associative(base, p11, xs[11]);
    vstd::seq_lib::lemma_concat_associative(base, p12, xs[12]);
    vstd::seq_lib::lemma_concat_associative(base, p13, xs[13]);
    vstd::seq_lib::lemma_concat_associative(base, p14, xs[14]);
    vstd::seq_lib::lemma_concat_associative(base, p15, xs[15]);
    vstd::seq_lib::lemma_concat_associative(base, p16, xs[16]);
    vstd::seq_lib::lemma_concat_associative(base, p17, xs[17]);
    vstd::seq_lib::lemma_concat_associative(base, p18, xs[18]);
}

/// Renders the whole history as one structured JSON document, the full
/// message array in order.
pub fn export_json(messages: &Vec<Message>) -> (r: String)
    ensures
        r@ == enc_doc(messages.deep_view()),
{
    let ghost msv = messages.deep_view();
    let mut out: Vec<char> = Vec::new();
    out.push('[');
    let n = messages.len();
    let mut i: usize = 0;
    while i < n
        invariant
            n == messages@.len(),
            msv == messages.deep_view(),
            0 <= i <= n,
            out@ + enc_msgs_from(msv, i as int) == seq!['['] + enc_msgs_from(msv, 0),
        decreases n - i,
    {
        push_msg_token(&mut out, &messages[i]);
        if i + 1 < n {
            out.push(',');
        }
        i += 1;
        proof {
            assert(out@ + enc_msgs_from(msv, i as int) =~= seq!['['] + enc_msgs_from(msv, 0));
        }
    }
    out.push(']');
    proof {
        assert(out@ =~= enc_doc(msv));
    }
    string_of(out)
}

} // verus!
