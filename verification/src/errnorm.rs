//! Error normalization: a raw backend error may embed a quoted, escaped JSON
//! blob inside a wrapper string. The handler strips the known wrapper prefix
//! and suffix, unescapes newlines and quotes, and pretty-prints the payload
//! as JSON when it is one, else keeps the cleaned raw string.

use vstd::prelude::*;

use crate::textutil::{chars_of, matches_at, replace_chars, spec_ends_with, spec_replace,
    spec_starts_with, string_of};

verus! {

/// Whether `s` is a well-formed JSON document, as `serde_json::from_str`
/// accepts it.
pub uninterp spec fn spec_json_wf(s: Seq<char>) -> bool;

/// The pretty-printed form of the JSON document `s`, a function of the
/// document alone.
pub uninterp spec fn spec_json_pretty(s: Seq<char>) -> Seq<char>;

/// Relies on serde_json: `from_str::<Value>` parses exactly the well-formed
/// JSON documents, and `to_string_pretty` renders the parsed value in the
/// crate's pretty format, a deterministic function of the input text.
/// Pretty-printing a parsed `Value` cannot itself fail — its maps are
/// string-keyed and its numbers finite — so the result is present exactly
/// when the input parses. The two calls stand in one body because the
/// intermediate `Value` carries no meaning of its own here: the wrapper as a
/// whole re-formats a JSON document, or refuses the input.
#[verifier::external_body]
fn reformat_json(s: &str) -> (r: Option<String>)
    ensures
        r is Some <==> spec_json_wf(s@),
        r is Some ==> r->0@ == spec_json_pretty(s@),
{
    match serde_json::from_str::<serde_json::Value>(s) {
        Ok(v) => serde_json::to_string_pretty(&v).ok(),
        Err(_) => None,
    }
}

/// The backend's wrapper around an embedded error payload: the prefix.
pub open spec fn spec_wrapper_prefix() -> Seq<char> {
    "StatusNotOk(\""@
}

/// The backend's wrapper around an embedded error payload: the suffix.
pub open spec fn spec_wrapper_suffix() -> Seq<char> {
    "\")"@
}

/// The cleaned error text: the wrapper prefix and suffix stripped when
/// present, then escaped newlines and quotes unescaped.
pub open spec fn spec_cleaned(m: Seq<char>) -> Seq<char> {
    let a = if spec_starts_with(m, spec_wrapper_prefix()) {
        m.skip(spec_wrapper_prefix().len() as int)
    } else {
        m
    };
    let b = if spec_ends_with(a, spec_wrapper_suffix()) {
        a.take(a.len() - 2)
    } else {
        a
    };
    spec_replace(spec_replace(b, seq!['\\', 'n'], seq!['\n']), seq!['\\', '"'], seq!['"'])
}

/// The user-presentable form of a raw backend error: the cleaned text,
/// pretty-printed as JSON when it is a JSON document, unchanged otherwise.
pub open spec fn spec_normalized(m: Seq<char>) -> Seq<char> {
    let c = spec_cleaned(m);
    if spec_json_wf(c) {
        spec_json_pretty(c)
    } else {
        c
    }
}

/// Strips the wrapper and unescapes, as `spec_cleaned` states.
pub fn clean_error_text(msg: &str) -> (r: String)
    ensures
        r@ == spec_cleaned(msg@),
{
    let m = chars_of(msg);
    let prefix = chars_of("StatusNotOk(\"");
    let suffix = chars_of("\")");

    let stripped = if matches_at(&m, 0, &prefix) {
        proof {
            assert(m@.skip(0) =~= m@);
        }
        let mut a: Vec<char> = Vec::new();
        let n = m.len();
        let mut i: usize = prefix.len();
        while i < n
            invariant
                n == m@.len(),
                prefix@.len() <= i <= n,
                a@ == m@.subrange(prefix@.len() as int, i as int),
            decreases n - i,
        {
            a.push(m[i]);
            i += 1;
            assert(a@ =~= m@.subrange(prefix@.len() as int, i as int));
        }
        proof {
            assert(a@ =~= m@.skip(prefix@.len() as int));
        }
        a
    } else {
        proof {
            assert(m@.skip(0) =~= m@);
        }
        let mut a: Vec<char> = Vec::new();
        let n = m.len();
        let mut i: usize = 0;
        while i < n
            invariant
                n == m@.len(),
                0 <= i <= n,
                a@ == m@.take(i as int),
            decreases n - i,
        {
            a.push(m[i]);
            i += 1;
            assert(a@ =~= m@.take(i as int));
        }
        proof {
            assert(a@ =~= m@);
        }
        a
    };

    let ghost a_view = stripped@;
    let mut b = stripped;
    let bl = b.len();
    proof {
        reveal_strlit("\")");
        reveal_strlit("StatusNotOk(\"");
    }
    let ends = if bl >= 2 {
        let c1 = b[bl - 2];
        let c2 = b[bl - 1];
        proof {
            assert(b@.skip(b@.len() - 2) =~= seq![b@[b@.len() - 2], b@[b@.len() - 1]]);
            assert(suffix@ =~= seq!['"', ')']);
        }
        c1 == '"' && c2 == ')'
    } else {
        proof {
            assert(!spec_ends_with(b@, spec_wrapper_suffix()));
        }
        false
    };
    if ends {
        let _ = b.pop();
        let _ = b.pop();
        proof {
            assert(b@ =~= a_view.take(a_view.len() - 2));
        }
    }

    let pat_n = chars_of("\\n");
    let rep_n = chars_of("\n");
    let pat_q = chars_of("\\\"");
    let rep_q = chars_of("\"");
    proof {
        reveal_strlit("\\n");
        reveal_strlit("\n");
        reveal_strlit("\\\"");
        reveal_strlit("\"");
        assert(pat_n@ =~= seq!['\\', 'n']);
        assert(rep_n@ =~= seq!['\n']);
        assert(pat_q@ =~= seq!['\\', '"']);
        assert(rep_q@ =~= seq!['"']);
    }
    let unescaped = replace_chars(&replace_chars(&b, &pat_n, &rep_n), &pat_q, &rep_q);
    string_of(unescaped)
}

/// Normalizes a raw backend error into user-presentable text, as
/// `spec_normalized` states: cleaned, and pretty-printed when the payload is
/// a JSON document.
pub fn normalize_error(msg: &str) -> (r: String)
    ensures
        r@ == spec_normalized(msg@),
{
    let cleaned = clean_error_text(msg);
    match reformat_json(cleaned.as_str()) {
        Some(pretty) => pretty,
        None => cleaned,
    }
}

} // verus!
