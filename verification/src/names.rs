//! Identifier and literal spelling for the generated code: sanitized type and
//! field names, enumerator names, quoted text literals and namespace chains.

use vstd::prelude::*;
use vstd::string::*;
use crate::text::{trim_end, trim_start, is_ws, lemma_trim_shape, trim, trim_str, is_alnum, is_digit, is_upper, to_upper, upper_char, is_alnum_char, is_digit_char, push_char};

verus! {

/// A character that may appear in a generated C++/Rust identifier.
pub open spec fn is_ident_char(c: char) -> bool {
    is_alnum(c) || c == '_'
}

/// A nonempty identifier of ASCII letters, digits and `_` that does not start
/// with a digit.
pub open spec fn is_identifier(s: Seq<char>) -> bool {
    &&& s.len() > 0
    &&& !is_digit(s[0])
    &&& forall|i: int| 0 <= i < s.len() ==> is_ident_char(#[trigger] s[i])
}

/// What one input character becomes in a sanitized name; `first` marks the
/// character at index 0, before which a digit gets a `_`.
pub open spec fn sanitize_piece(c: char, first: bool) -> Seq<char> {
    if is_alnum(c) {
        if first && is_digit(c) {
            seq!['_', c]
        } else {
            seq![c]
        }
    } else {
        seq!['_']
    }
}

/// The characters of `s`, each replaced by its sanitized piece.
pub open spec fn sanitize_chars(s: Seq<char>) -> Seq<char>
    decreases s.len(),
{
    if s.len() == 0 {
        seq![]
    } else {
        sanitize_chars(s.drop_last()) + sanitize_piece(s.last(), s.len() == 1)
    }
}

pub open spec fn spec_sanitize_type_name(s: Seq<char>) -> Seq<char> {
    if s.len() == 0 {
        seq!['T', 'y', 'p', 'e']
    } else {
        sanitize_chars(s)
    }
}

pub open spec fn spec_sanitize_field_name(s: Seq<char>) -> Seq<char> {
    if s.len() == 0 {
        seq!['F', 'i', 'e', 'l', 'd']
    } else {
        sanitize_chars(s)
    }
}

/// Sanitizes each character of `s` (see `sanitize_chars`).
fn sanitize_ident(s: &str) -> (out: String)
    ensures
        out@ == sanitize_chars(s@),
{
    let n = s.unicode_len();
    let mut out = String::new();
    let mut i: usize = 0;
    while i < n
        invariant
            n == s@.len(),
            i <= n,
            out@ == sanitize_chars(s@.subrange(0, i as int)),
        decreases n - i,
    {
        let ch = s.get_char(i);
        if is_alnum_char(ch) {
            if i == 0 && is_digit_char(ch) {
                push_char(&mut out, '_');
            }
            push_char(&mut out, ch);
        } else {
            push_char(&mut out, '_');
        }
        assert(s@.subrange(0, i + 1).drop_last() =~= s@.subrange(0, i as int));
        i = i + 1;
    }
    assert(s@.subrange(0, n as int) =~= s@);
    out
}

/// A type name usable as a C++/Rust identifier: letters and digits are kept,
/// a leading digit gets a `_` before it, every other character becomes `_`,
/// and the empty name becomes `Type`.
pub fn sanitize_type_name(s: &str) -> (r: String)
    ensures
        r@ == spec_sanitize_type_name(s@),
{
    if s.unicode_len() == 0 {
        let r = String::from_str("Type");
        proof {
            reveal_strlit("Type");
        }
        r
    } else {
        sanitize_ident(s)
    }
}

/// A field name usable as a C++/Rust identifier, as `sanitize_type_name`
/// does, with `Field` for the empty name.
pub fn sanitize_field_name(s: &str) -> (r: String)
    ensures
        r@ == spec_sanitize_field_name(s@),
{
    if s.unicode_len() == 0 {
        let r = String::from_str("Field");
        proof {
            reveal_strlit("Field");
        }
        r
    } else {
        sanitize_ident(s)
    }
}

/// Identifier characters, with no digit in front.
pub open spec fn ident_shaped(s: Seq<char>) -> bool {
    &&& (s.len() > 0 ==> !is_digit(s[0]))
    &&& forall|i: int| 0 <= i < s.len() ==> is_ident_char(#[trigger] s[i])
}

proof fn lemma_sanitize_chars_shape(s: Seq<char>)
    ensures
        sanitize_chars(s).len() >= s.len(),
        ident_shaped(sanitize_chars(s)),
    decreases s.len(),
{
    if s.len() > 0 {
        let p = s.drop_last();
        lemma_sanitize_chars_shape(p);
        let a = sanitize_chars(p);
        let b = sanitize_piece(s.last(), s.len() == 1);
        assert(sanitize_chars(s) == a + b);
        assert forall|i: int| 0 <= i < (a + b).len() implies is_ident_char(#[trigger] (a + b)[i]) by {
            if i < a.len() {
                assert((a + b)[i] == a[i]);
            } else {
                assert((a + b)[i] == b[i - a.len()]);
            }
        }
        if a.len() > 0 {
            assert((a + b)[0] == a[0]);
        }
    }
}

proof fn lemma_sanitize_chars_fixed(s: Seq<char>)
    requires
        ident_shaped(s),
    ensures
        sanitize_chars(s) == s,
    decreases s.len(),
{
    if s.len() > 0 {
        let p = s.drop_last();
        assert forall|i: int| 0 <= i < p.len() implies is_ident_char(#[trigger] p[i]) by {
            assert(p[i] == s[i]);
        }
        if p.len() > 0 {
            assert(p[0] == s[0]);
        }
        lemma_sanitize_chars_fixed(p);
        assert(is_ident_char(s[s.len() - 1]));
        assert(s.len() == 1 ==> s.last() == s[0]);
        assert(sanitize_chars(s) =~= s);
    }
}

/// Every sanitized type name is an identifier.
pub proof fn lemma_sanitize_type_name_is_identifier(s: Seq<char>)
    ensures
        is_identifier(spec_sanitize_type_name(s)),
{
    lemma_sanitize_chars_shape(s);
}

/// Every sanitized field name is an identifier.
pub proof fn lemma_sanitize_field_name_is_identifier(s: Seq<char>)
    ensures
        is_identifier(spec_sanitize_field_name(s)),
{
    lemma_sanitize_chars_shape(s);
}

/// A name that already is an identifier is kept as it is.
pub proof fn lemma_sanitize_keeps_identifiers(s: Seq<char>)
    requires
        is_identifier(s),
    ensures
        spec_sanitize_type_name(s) == s,
        spec_sanitize_field_name(s) == s,
{
    lemma_sanitize_chars_fixed(s);
}

/// Sanitizing twice gives what sanitizing once gives.
pub proof fn lemma_sanitize_idempotent(s: Seq<char>)
    ensures
        spec_sanitize_type_name(spec_sanitize_type_name(s)) == spec_sanitize_type_name(s),
        spec_sanitize_field_name(spec_sanitize_field_name(s)) == spec_sanitize_field_name(s),
{
    lemma_sanitize_type_name_is_identifier(s);
    lemma_sanitize_field_name_is_identifier(s);
    lemma_sanitize_keeps_identifiers(spec_sanitize_type_name(s));
    lemma_sanitize_keeps_identifiers(spec_sanitize_field_name(s));
}


/// The enumerator scan over `s`: the letters and digits kept so far, and
/// whether the next one starts a new word (and is upper-cased).
pub open spec fn enum_case_state(s: Seq<char>) -> (Seq<char>, bool)
    decreases s.len(),
{
    if s.len() == 0 {
        (seq![], true)
    } else {
        let (out, upper_next) = enum_case_state(s.drop_last());
        let c = s.last();
        if is_alnum(c) {
            if upper_next {
                (out.push(to_upper(c)), false)
            } else {
                (out.push(c), false)
            }
        } else {
            (out, true)
        }
    }
}

/// The PascalCase enumerator for a value: words (runs of ASCII letters and
/// digits) are joined with their first letter upper-cased; an empty result is
/// `Value`, and one that starts with a digit gets a `V` before it.
pub open spec fn spec_enum_case(s: Seq<char>) -> Seq<char> {
    let out = enum_case_state(s).0;
    if out.len() == 0 {
        seq!['V', 'a', 'l', 'u', 'e']
    } else if is_digit(out[0]) {
        seq!['V'] + out
    } else {
        out
    }
}

/// An enumerator name: nonempty, ASCII letters and digits, an upper-case
/// letter first.
pub open spec fn is_enumerator(s: Seq<char>) -> bool {
    &&& s.len() > 0
    &&& is_upper(s[0])
    &&& forall|i: int| 0 <= i < s.len() ==> is_alnum(#[trigger] s[i])
}

/// The PascalCase enumerator name for a string value (see `spec_enum_case`).
pub fn enum_case(s: &str) -> (r: String)
    ensures
        r@ == spec_enum_case(s@),
{
    let n = s.unicode_len();
    let mut out = String::new();
    let mut upper_next = true;
    let mut i: usize = 0;
    while i < n
        invariant
            n == s@.len(),
            i <= n,
            (out@, upper_next) == enum_case_state(s@.subrange(0, i as int)),
        decreases n - i,
    {
        let ch = s.get_char(i);
        if is_alnum_char(ch) {
            if upper_next {
                push_char(&mut out, upper_char(ch));
                upper_next = false;
            } else {
                push_char(&mut out, ch);
            }
        } else {
            upper_next = true;
        }
        assert(s@.subrange(0, i + 1).drop_last() =~= s@.subrange(0, i as int));
        i = i + 1;
    }
    assert(s@.subrange(0, n as int) =~= s@);
    let len = out.as_str().unicode_len();
    if len == 0 {
        let r = String::from_str("Value");
        proof {
            reveal_strlit("Value");
        }
        r
    } else if is_digit_char(out.as_str().get_char(0)) {
        let mut r = String::from_str("V");
        proof {
            reveal_strlit("V");
        }
        r.append(out.as_str());
        r
    } else {
        out
    }
}

proof fn lemma_enum_case_state_shape(s: Seq<char>)
    ensures
        ({
            let (out, upper_next) = enum_case_state(s);
            &&& out.len() == 0 ==> upper_next
            &&& out.len() > 0 ==> is_upper(out[0]) || is_digit(out[0])
            &&& forall|i: int| 0 <= i < out.len() ==> is_alnum(#[trigger] out[i])
        }),
    decreases s.len(),
{
    if s.len() > 0 {
        lemma_enum_case_state_shape(s.drop_last());
        let (out, upper_next) = enum_case_state(s.drop_last());
        let c = s.last();
        if is_alnum(c) {
            let d = if upper_next { to_upper(c) } else { c };
            assert forall|i: int| 0 <= i < out.push(d).len() implies is_alnum(#[trigger] out.push(d)[i]) by {
                if i < out.len() {
                    assert(out.push(d)[i] == out[i]);
                }
            }
            if out.len() > 0 {
                assert(out.push(d)[0] == out[0]);
            }
        }
    }
}

/// Every enumerator name is nonempty, alphanumeric and starts with an
/// upper-case letter.
pub proof fn lemma_enum_case_is_enumerator(s: Seq<char>)
    ensures
        is_enumerator(spec_enum_case(s)),
{
    lemma_enum_case_state_shape(s);
    let out = enum_case_state(s).0;
    if out.len() > 0 && is_digit(out[0]) {
        let r = seq!['V'] + out;
        assert forall|i: int| 0 <= i < r.len() implies is_alnum(#[trigger] r[i]) by {
            if i > 0 {
                assert(r[i] == out[i - 1]);
            }
        }
    }
    let v = seq!['V', 'a', 'l', 'u', 'e'];
    assert forall|i: int| 0 <= i < v.len() implies is_alnum(#[trigger] v[i]) by {}
}

proof fn lemma_enum_case_state_fixed(s: Seq<char>)
    requires
        is_enumerator(s),
    ensures
        enum_case_state(s) == (s, false),
    decreases s.len(),
{
    let p = s.drop_last();
    if p.len() > 0 {
        assert(p[0] == s[0]);
        assert forall|i: int| 0 <= i < p.len() implies is_alnum(#[trigger] p[i]) by {
            assert(p[i] == s[i]);
        }
        lemma_enum_case_state_fixed(p);
    } else {
        assert(s.last() == s[0]);
        assert(to_upper(s.last()) == s.last());
    }
    assert(is_alnum(s[s.len() - 1]));
    assert(p.push(s.last()) =~= s);
    let prev = enum_case_state(p);
    assert(prev.0.len() == 0 ==> prev.1);
    assert(enum_case_state(s).0 == p.push(s.last()));
    assert(enum_case_state(s).1 == false);
}

/// An enumerator name is its own enumerator name; so converting twice gives
/// what converting once gives.
pub proof fn lemma_enum_case_idempotent(s: Seq<char>)
    ensures
        is_enumerator(s) ==> spec_enum_case(s) == s,
        spec_enum_case(spec_enum_case(s)) == spec_enum_case(s),
{
    if is_enumerator(s) {
        lemma_enum_case_state_fixed(s);
    }
    lemma_enum_case_is_enumerator(s);
    lemma_enum_case_state_fixed(spec_enum_case(s));
}


/// How one character is written inside a C++ string literal.
pub open spec fn escape_char(c: char) -> Seq<char> {
    if c == '\\' {
        seq!['\\', '\\']
    } else if c == '"' {
        seq!['\\', '"']
    } else if c == '\n' {
        seq!['\\', 'n']
    } else if c == '\r' {
        seq!['\\', 'r']
    } else if c == '\t' {
        seq!['\\', 't']
    } else {
        seq![c]
    }
}

pub open spec fn escape_all(s: Seq<char>) -> Seq<char>
    decreases s.len(),
{
    if s.len() == 0 {
        seq![]
    } else {
        escape_all(s.drop_last()) + escape_char(s.last())
    }
}

/// The text in double quotes, with backslash, double quote, newline, carriage
/// return and tab escaped.
pub open spec fn spec_quote_text_literal(s: Seq<char>) -> Seq<char> {
    seq!['"'] + escape_all(s) + seq!['"']
}

/// The content of a C++ `TEXT(...)` literal for `s`, quotes included.
pub fn quote_text_literal(s: &str) -> (r: String)
    ensures
        r@ == spec_quote_text_literal(s@),
{
    let n = s.unicode_len();
    let mut out = String::new();
    push_char(&mut out, '"');
    let mut i: usize = 0;
    while i < n
        invariant
            n == s@.len(),
            i <= n,
            out@ == seq!['"'] + escape_all(s@.subrange(0, i as int)),
        decreases n - i,
    {
        let ch = s.get_char(i);
        if ch == '\\' {
            push_char(&mut out, '\\');
            push_char(&mut out, '\\');
        } else if ch == '"' {
            push_char(&mut out, '\\');
            push_char(&mut out, '"');
        } else if ch == '\n' {
            push_char(&mut out, '\\');
            push_char(&mut out, 'n');
        } else if ch == '\r' {
            push_char(&mut out, '\\');
            push_char(&mut out, 'r');
        } else if ch == '\t' {
            push_char(&mut out, '\\');
            push_char(&mut out, 't');
        } else {
            push_char(&mut out, ch);
        }
        assert(s@.subrange(0, i + 1).drop_last() =~= s@.subrange(0, i as int));
        assert(out@ =~= seq!['"'] + escape_all(s@.subrange(0, i + 1)));
        i = i + 1;
    }
    assert(s@.subrange(0, n as int) =~= s@);
    push_char(&mut out, '"');
    assert(out@ =~= spec_quote_text_literal(s@));
    out
}

/// The character that follows a backslash in an escape, read back.
pub open spec fn unescape_char(c: char) -> char {
    if c == 'n' {
        '\n'
    } else if c == 'r' {
        '\r'
    } else if c == 't' {
        '\t'
    } else {
        c
    }
}

/// Reads escaped literal content back into the text it stands for.
pub open spec fn unescape(t: Seq<char>) -> Seq<char>
    decreases t.len(),
{
    if t.len() == 0 {
        seq![]
    } else if t[0] == '\\' && t.len() >= 2 {
        seq![unescape_char(t[1])] + unescape(t.skip(2))
    } else {
        seq![t[0]] + unescape(t.skip(1))
    }
}

proof fn lemma_escape_all_add(a: Seq<char>, b: Seq<char>)
    ensures
        escape_all(a + b) == escape_all(a) + escape_all(b),
    decreases b.len(),
{
    if b.len() == 0 {
        assert(a + b =~= a);
        assert(escape_all(a) + escape_all(b) =~= escape_all(a));
    } else {
        lemma_escape_all_add(a, b.drop_last());
        assert((a + b).drop_last() =~= a + b.drop_last());
        assert((a + b).last() == b.last());
        assert(escape_all(a + b) =~= escape_all(a) + escape_all(b));
    }
}

/// Reading the escaped content back gives the text.
pub proof fn lemma_unescape_escape(s: Seq<char>)
    ensures
        unescape(escape_all(s)) == s,
    decreases s.len(),
{
    if s.len() > 0 {
        let c = s[0];
        let rest = s.skip(1);
        assert(s =~= seq![c] + rest);
        lemma_escape_all_add(seq![c], rest);
        let one = seq![c];
        assert(one.drop_last().len() == 0);
        assert(escape_all(one.drop_last()) =~= Seq::<char>::empty());
        assert(one.last() == c);
        assert(escape_all(one) =~= escape_char(c));
        lemma_unescape_escape(rest);
        let e = escape_char(c) + escape_all(rest);
        if escape_char(c).len() == 2 {
            assert(e.skip(2) =~= escape_all(rest));
        } else {
            assert(e.skip(1) =~= escape_all(rest));
        }
        assert(unescape(e) =~= seq![c] + rest);
    } else {
        assert(escape_all(s) =~= Seq::<char>::empty());
    }
}

/// The quoted literal determines the text: different texts never get the same
/// literal.
pub proof fn lemma_quote_text_literal_injective(a: Seq<char>, b: Seq<char>)
    requires
        spec_quote_text_literal(a) == spec_quote_text_literal(b),
    ensures
        a == b,
{
    let qa = spec_quote_text_literal(a);
    let qb = spec_quote_text_literal(b);
    assert(qa.subrange(1, qa.len() - 1) =~= escape_all(a));
    assert(qb.subrange(1, qb.len() - 1) =~= escape_all(b));
    lemma_unescape_escape(a);
    lemma_unescape_escape(b);
}

proof fn lemma_escape_all_no_controls(s: Seq<char>)
    ensures
        forall|i: int|
            0 <= i < escape_all(s).len() ==> #[trigger] escape_all(s)[i] != '\n' && escape_all(s)[i]
                != '\r' && escape_all(s)[i] != '\t',
    decreases s.len(),
{
    if s.len() > 0 {
        lemma_escape_all_no_controls(s.drop_last());
        let a = escape_all(s.drop_last());
        let b = escape_char(s.last());
        assert forall|i: int| 0 <= i < (a + b).len() implies #[trigger] (a + b)[i] != '\n' && (a
            + b)[i] != '\r' && (a + b)[i] != '\t' by {
            if i < a.len() {
                assert((a + b)[i] == a[i]);
            } else {
                assert((a + b)[i] == b[i - a.len()]);
            }
        }
    }
}

/// A quoted literal starts and ends with a double quote and holds no raw
/// newline, carriage return or tab.
pub proof fn lemma_quote_text_literal_shape(s: Seq<char>)
    ensures
        ({
            let q = spec_quote_text_literal(s);
            &&& q.len() >= 2
            &&& q[0] == '"'
            &&& q.last() == '"'
            &&& forall|i: int| 0 <= i < q.len() ==> #[trigger] q[i] != '\n' && q[i] != '\r' && q[i] != '\t'
        }),
{
    lemma_escape_all_no_controls(s);
    let q = spec_quote_text_literal(s);
    let e = escape_all(s);
    assert forall|i: int| 0 <= i < q.len() implies #[trigger] q[i] != '\n' && q[i] != '\r' && q[i]
        != '\t' by {
        if 1 <= i < q.len() - 1 {
            assert(q[i] == e[i - 1]);
        }
    }
}


/// `str::split` on the separator `::`, continued from a current piece `cur`
/// over the rest `s`.
pub open spec fn split_from(cur: Seq<char>, s: Seq<char>) -> Seq<Seq<char>>
    decreases s.len(),
{
    if s.len() == 0 {
        seq![cur]
    } else if s.len() >= 2 && s[0] == ':' && s[1] == ':' {
        seq![cur] + split_from(seq![], s.skip(2))
    } else {
        split_from(cur.push(s[0]), s.skip(1))
    }
}

/// The pieces of `s` between occurrences of `::`, found from the left.
pub open spec fn split_sep(s: Seq<char>) -> Seq<Seq<char>> {
    split_from(seq![], s)
}

/// A namespace piece, trimmed, kept only when something is left.
pub open spec fn kept_part(p: Seq<char>) -> Option<Seq<char>> {
    if trim(p).len() > 0 {
        Some(trim(p))
    } else {
        None
    }
}

pub open spec fn clean_parts(ps: Seq<Seq<char>>) -> Seq<Seq<char>> {
    ps.filter_map(|p: Seq<char>| kept_part(p))
}

/// The namespace chain in `ns`: the pieces between `::`, trimmed, without
/// the empty ones.
pub open spec fn spec_split_namespace(ns: Seq<char>) -> Seq<Seq<char>> {
    clean_parts(split_sep(ns))
}

proof fn lemma_clean_parts_add(a: Seq<Seq<char>>, b: Seq<Seq<char>>)
    ensures
        clean_parts(a + b) == clean_parts(a) + clean_parts(b),
    decreases b.len(),
{
    if b.len() == 0 {
        assert(a + b =~= a);
        assert(clean_parts(b) =~= Seq::<Seq<char>>::empty());
        assert(clean_parts(a) + clean_parts(b) =~= clean_parts(a));
    } else {
        lemma_clean_parts_add(a, b.drop_last());
        assert((a + b).drop_last() =~= a + b.drop_last());
        assert((a + b).last() == b.last());
        assert(clean_parts(a + b) =~= clean_parts(a) + clean_parts(b));
    }
}

proof fn lemma_clean_parts_one(p: Seq<char>)
    ensures
        clean_parts(seq![p]) == (if trim(p).len() > 0 {
            seq![trim(p)]
        } else {
            Seq::<Seq<char>>::empty()
        }),
{
    let one = seq![p];
    assert(one.drop_last() =~= Seq::<Seq<char>>::empty());
    assert(one.last() == p);
    assert(clean_parts(one.drop_last()) =~= Seq::<Seq<char>>::empty());
    assert(clean_parts(one) =~= (if trim(p).len() > 0 {
        seq![trim(p)]
    } else {
        Seq::<Seq<char>>::empty()
    }));
}

/// Splits a namespace chain such as `Game::DB` into its names.
pub fn split_namespace(ns: &str) -> (parts: Vec<String>)
    ensures
        parts.deep_view() == spec_split_namespace(ns@),
{
    let n = ns.unicode_len();
    let mut parts: Vec<String> = Vec::new();
    let mut st: usize = 0;
    let mut i: usize = 0;
    assert(ns@.subrange(0, n as int) =~= ns@);
    assert(ns@.subrange(0, 0) =~= Seq::<char>::empty());
    assert(parts.deep_view() =~= Seq::<Seq<char>>::empty());
    while i < n
        invariant
            n == ns@.len(),
            st <= i <= n,
            parts.deep_view() + clean_parts(
                split_from(ns@.subrange(st as int, i as int), ns@.subrange(i as int, n as int)),
            ) == spec_split_namespace(ns@),
        decreases n - i,
    {
        let ghost cur = ns@.subrange(st as int, i as int);
        let ghost rest = ns@.subrange(i as int, n as int);
        if i + 1 < n && ns.get_char(i) == ':' && ns.get_char(i + 1) == ':' {
            let piece = trim_str(ns.substring_char(st, i));
            assert(rest.skip(2) =~= ns@.subrange(i + 2, n as int));
            assert(ns@.subrange(i + 2, i + 2) =~= Seq::<char>::empty());
            let ghost later = split_from(seq![], rest.skip(2));
            proof {
                lemma_clean_parts_add(seq![cur], later);
                lemma_clean_parts_one(cur);
            }
            let ghost before = parts.deep_view();
            if piece.unicode_len() > 0 {
                parts.push(String::from_str(piece));
                assert(parts.deep_view() =~= before.push(trim(cur)));
            }
            assert(parts.deep_view() + clean_parts(later) =~= before + clean_parts(
                split_from(cur, rest),
            ));
            i = i + 2;
            st = i;
        } else {
            assert(cur.push(rest[0]) =~= ns@.subrange(st as int, i + 1));
            assert(rest.skip(1) =~= ns@.subrange(i + 1, n as int));
            i = i + 1;
        }
    }
    let ghost cur = ns@.subrange(st as int, n as int);
    assert(ns@.subrange(n as int, n as int) =~= Seq::<char>::empty());
    proof {
        lemma_clean_parts_one(cur);
    }
    let piece = trim_str(ns.substring_char(st, n));
    let ghost before = parts.deep_view();
    if piece.unicode_len() > 0 {
        parts.push(String::from_str(piece));
        assert(parts.deep_view() =~= before.push(trim(cur)));
    }
    assert(parts.deep_view() =~= before + clean_parts(seq![cur]));
    parts
}


/// A namespace name as the chain keeps it: nonempty, with no white space at
/// either end.
pub open spec fn is_trimmed_name(p: Seq<char>) -> bool {
    p.len() > 0 && !is_ws(p[0]) && !is_ws(p.last())
}

proof fn lemma_clean_parts_trimmed(ps: Seq<Seq<char>>)
    ensures
        forall|i: int|
            0 <= i < clean_parts(ps).len() ==> is_trimmed_name(#[trigger] clean_parts(ps)[i]),
    decreases ps.len(),
{
    if ps.len() > 0 {
        lemma_clean_parts_trimmed(ps.drop_last());
        let a = clean_parts(ps.drop_last());
        let p = ps.last();
        lemma_trim_shape(p);
        if trim(p).len() > 0 {
            assert(clean_parts(ps) == a + seq![trim(p)]);
            assert forall|i: int| 0 <= i < (a + seq![trim(p)]).len() implies is_trimmed_name(
                #[trigger] (a + seq![trim(p)])[i],
            ) by {
                if i < a.len() {
                    assert((a + seq![trim(p)])[i] == a[i]);
                }
            }
        }
    }
}

/// Every name of a split namespace chain is nonempty and has no white space
/// at either end.
pub proof fn lemma_split_namespace_trimmed(ns: Seq<char>)
    ensures
        forall|i: int|
            0 <= i < spec_split_namespace(ns).len() ==> is_trimmed_name(
                #[trigger] spec_split_namespace(ns)[i],
            ),
{
    lemma_clean_parts_trimmed(split_sep(ns));
}


/// The names of a chain written one after the other with `::` between them.
pub open spec fn join_namespace(parts: Seq<Seq<char>>) -> Seq<char>
    decreases parts.len(),
{
    if parts.len() == 0 {
        seq![]
    } else if parts.len() == 1 {
        parts[0]
    } else {
        parts[0] + seq![':', ':'] + join_namespace(parts.skip(1))
    }
}

/// No `::` occurs in `p`.
pub open spec fn no_double_colon(p: Seq<char>) -> bool {
    forall|i: int| 0 <= i && i + 1 < p.len() ==> !(#[trigger] p[i] == ':' && p[i + 1] == ':')
}

/// A name that can stand in a chain written with `::`: no `::` inside, and
/// no `:` at its end (where it would run into the separator).
pub open spec fn joinable(p: Seq<char>) -> bool {
    no_double_colon(p) && (p.len() > 0 ==> p.last() != ':')
}

proof fn lemma_split_plain_piece(cur: Seq<char>, p: Seq<char>, rest: Seq<char>)
    requires
        joinable(p),
    ensures
        split_from(cur, p) == seq![cur + p],
        split_from(cur, p + seq![':', ':'] + rest) == seq![cur + p] + split_from(seq![], rest),
    decreases p.len(),
{
    let t = p + seq![':', ':'] + rest;
    if p.len() == 0 {
        assert(cur + p =~= cur);
        assert(t.skip(2) =~= rest);
        assert(t[0] == ':' && t[1] == ':');
    } else {
        let q = p.skip(1);
        assert forall|i: int| 0 <= i && i + 1 < q.len() implies !(#[trigger] q[i] == ':' && q[i + 1] == ':') by {
            assert(q[i] == p[i + 1]);
            assert(q[i + 1] == p[i + 2]);
        }
        if q.len() > 0 {
            assert(q.last() == p.last());
        }
        lemma_split_plain_piece(cur.push(p[0]), q, rest);
        assert(cur.push(p[0]) + q =~= cur + p);
        assert(p.skip(1) =~= q);
        assert(t[0] == p[0]);
        if p.len() == 1 {
            assert(t[1] == ':');
            assert(p[0] == p.last());
        } else {
            assert(t[1] == p[1]);
        }
        assert(t.skip(1) =~= q + seq![':', ':'] + rest);
    }
}

proof fn lemma_split_join(parts: Seq<Seq<char>>)
    requires
        parts.len() > 0,
        forall|i: int| 0 <= i < parts.len() ==> joinable(#[trigger] parts[i]),
    ensures
        split_sep(join_namespace(parts)) == parts,
    decreases parts.len(),
{
    let e = Seq::<char>::empty();
    if parts.len() == 1 {
        lemma_split_plain_piece(e, parts[0], e);
        assert(e + parts[0] =~= parts[0]);
        assert(seq![parts[0]] =~= parts);
    } else {
        let rest = parts.skip(1);
        assert forall|i: int| 0 <= i < rest.len() implies joinable(#[trigger] rest[i]) by {
            assert(rest[i] == parts[i + 1]);
        }
        lemma_split_join(rest);
        assert(joinable(parts[0]));
        lemma_split_plain_piece(e, parts[0], join_namespace(rest));
        assert(e + parts[0] =~= parts[0]);
        assert(seq![parts[0]] + rest =~= parts);
    }
}

proof fn lemma_trimmed_name_fixed(p: Seq<char>)
    requires
        is_trimmed_name(p),
    ensures
        trim(p) == p,
{
    assert(trim_start(p) == p);
    assert(trim_end(p) == p);
}

proof fn lemma_clean_trimmed(parts: Seq<Seq<char>>)
    requires
        forall|i: int| 0 <= i < parts.len() ==> is_trimmed_name(#[trigger] parts[i]),
    ensures
        clean_parts(parts) == parts,
    decreases parts.len(),
{
    if parts.len() > 0 {
        let a = parts.drop_last();
        assert forall|i: int| 0 <= i < a.len() implies is_trimmed_name(#[trigger] a[i]) by {
            assert(a[i] == parts[i]);
        }
        lemma_clean_trimmed(a);
        assert(is_trimmed_name(parts[parts.len() - 1]));
        lemma_trimmed_name_fixed(parts.last());
        assert(a.push(parts.last()) =~= parts);
    } else {
        assert(clean_parts(parts) =~= parts);
    }
}

/// Writing a chain of names with `::` and splitting it again gives the names
/// back, for names that are nonempty, have no white space at either end,
/// hold no `::` and do not end with `:`.
pub proof fn lemma_split_namespace_join(parts: Seq<Seq<char>>)
    requires
        forall|i: int| 0 <= i < parts.len() ==> is_trimmed_name(#[trigger] parts[i]) && joinable(parts[i]),
    ensures
        spec_split_namespace(join_namespace(parts)) == parts,
{
    if parts.len() > 0 {
        lemma_split_join(parts);
        lemma_clean_trimmed(parts);
    } else {
        let e = Seq::<char>::empty();
        assert(split_sep(e) == seq![e]);
        lemma_clean_parts_one(e);
        assert(trim(e) =~= e);
        assert(clean_parts(seq![e]) =~= parts);
    }
}


proof fn lemma_split_from_pieces(cur: Seq<char>, s: Seq<char>)
    requires
        no_double_colon(cur),
        cur.len() > 0 && cur.last() == ':' ==> !(s.len() > 0 && s[0] == ':'),
    ensures
        forall|k: int| 0 <= k < split_from(cur, s).len() ==> no_double_colon(#[trigger] split_from(cur, s)[k]),
    decreases s.len(),
{
    if s.len() == 0 {
        assert(split_from(cur, s) == seq![cur]);
        assert(seq![cur][0] == cur);
    } else if s.len() >= 2 && s[0] == ':' && s[1] == ':' {
        lemma_split_from_pieces(seq![], s.skip(2));
        let a = split_from(seq![], s.skip(2));
        assert(split_from(cur, s) == seq![cur] + a);
        assert forall|k: int| 0 <= k < (seq![cur] + a).len() implies no_double_colon(#[trigger] (seq![cur] + a)[k]) by {
            if k > 0 {
                assert((seq![cur] + a)[k] == a[k - 1]);
            }
        }
    } else {
        let c2 = cur.push(s[0]);
        assert forall|i: int| 0 <= i && i + 1 < c2.len() implies !(#[trigger] c2[i] == ':' && c2[i + 1] == ':') by {
            if i + 1 < cur.len() {
                assert(c2[i] == cur[i] && c2[i + 1] == cur[i + 1]);
            } else {
                assert(c2[i] == cur.last() && c2[i + 1] == s[0]);
            }
        }
        if s[0] == ':' && s.skip(1).len() > 0 {
            assert(s.skip(1)[0] == s[1]);
        }
        lemma_split_from_pieces(c2, s.skip(1));
        assert(split_from(cur, s) == split_from(c2, s.skip(1)));
    }
}

proof fn lemma_subrange_no_double_colon(p: Seq<char>, a: int, b: int)
    requires
        no_double_colon(p),
        0 <= a <= b <= p.len(),
    ensures
        no_double_colon(p.subrange(a, b)),
{
    let q = p.subrange(a, b);
    assert forall|i: int| 0 <= i && i + 1 < q.len() implies !(#[trigger] q[i] == ':' && q[i + 1] == ':') by {
        assert(q[i] == p[a + i] && q[i + 1] == p[a + i + 1]);
    }
}

proof fn lemma_clean_parts_no_double_colon(ps: Seq<Seq<char>>)
    requires
        forall|k: int| 0 <= k < ps.len() ==> no_double_colon(#[trigger] ps[k]),
    ensures
        forall|k: int| 0 <= k < clean_parts(ps).len() ==> no_double_colon(#[trigger] clean_parts(ps)[k]),
    decreases ps.len(),
{
    if ps.len() > 0 {
        let a = ps.drop_last();
        assert forall|k: int| 0 <= k < a.len() implies no_double_colon(#[trigger] a[k]) by {
            assert(a[k] == ps[k]);
        }
        lemma_clean_parts_no_double_colon(a);
        let p = ps.last();
        assert(no_double_colon(ps[ps.len() - 1]));
        lemma_trim_shape(p);
        let (x, y) = choose|x: int, y: int| 0 <= x <= y <= p.len() && trim(p) == p.subrange(x, y);
        lemma_subrange_no_double_colon(p, x, y);
        let ca = clean_parts(a);
        if trim(p).len() > 0 {
            assert(clean_parts(ps) == ca + seq![trim(p)]);
            assert forall|k: int| 0 <= k < (ca + seq![trim(p)]).len() implies no_double_colon(
                #[trigger] (ca + seq![trim(p)])[k],
            ) by {
                if k < ca.len() {
                    assert((ca + seq![trim(p)])[k] == ca[k]);
                }
            }
        }
    }
}

/// The names of a split chain never hold `::`.
pub proof fn lemma_split_namespace_no_separator(ns: Seq<char>)
    ensures
        forall|i: int|
            0 <= i < spec_split_namespace(ns).len() ==> no_double_colon(#[trigger] spec_split_namespace(ns)[i]),
{
    lemma_split_from_pieces(seq![], ns);
    lemma_clean_parts_no_double_colon(split_sep(ns));
}

/// Splitting a chain, writing its names with `::` again and splitting that
/// gives the same names, as long as none of them ends with `:`.
pub proof fn lemma_split_namespace_round_trip(ns: Seq<char>)
    requires
        forall|i: int|
            0 <= i < spec_split_namespace(ns).len() ==> (#[trigger] spec_split_namespace(ns)[i]).last() != ':',
    ensures
        spec_split_namespace(join_namespace(spec_split_namespace(ns))) == spec_split_namespace(ns),
{
    let xs = spec_split_namespace(ns);
    lemma_split_namespace_trimmed(ns);
    lemma_split_namespace_no_separator(ns);
    assert forall|i: int| 0 <= i < xs.len() implies is_trimmed_name(#[trigger] xs[i]) && joinable(xs[i]) by {}
    lemma_split_namespace_join(xs);
}


proof fn lemma_escape_all_quotes_escaped(s: Seq<char>)
    ensures
        forall|i: int|
            0 <= i < escape_all(s).len() && #[trigger] escape_all(s)[i] == '"' ==> i > 0 && escape_all(s)[i
                - 1] == '\\',
    decreases s.len(),
{
    if s.len() > 0 {
        lemma_escape_all_quotes_escaped(s.drop_last());
        let a = escape_all(s.drop_last());
        let b = escape_char(s.last());
        assert(escape_all(s) == a + b);
        assert forall|i: int| 0 <= i < (a + b).len() && #[trigger] (a + b)[i] == '"' implies i > 0 && (a
            + b)[i - 1] == '\\' by {
            if i < a.len() {
                assert((a + b)[i] == a[i]);
                assert((a + b)[i - 1] == a[i - 1]);
            } else {
                assert((a + b)[i] == b[i - a.len()]);
                assert(i - a.len() == 1);
                assert((a + b)[i - 1] == b[0]);
            }
        }
    }
}

/// Inside a quoted literal every double quote follows a backslash: the only
/// bare double quotes are the two that delimit it.
pub proof fn lemma_quote_text_literal_no_bare_quote(s: Seq<char>)
    ensures
        ({
            let q = spec_quote_text_literal(s);
            forall|i: int| 1 <= i < q.len() - 1 && #[trigger] q[i] == '"' ==> q[i - 1] == '\\'
        }),
{
    lemma_escape_all_quotes_escaped(s);
    let q = spec_quote_text_literal(s);
    let e = escape_all(s);
    assert forall|i: int| 1 <= i < q.len() - 1 && #[trigger] q[i] == '"' implies q[i - 1] == '\\' by {
        assert(q[i] == e[i - 1]);
        assert(q[i - 1] == e[i - 2]);
    }
}


/// The characters a text literal escapes.
pub open spec fn needs_escape(c: char) -> bool {
    c == '\\' || c == '"' || c == '\n' || c == '\r' || c == '\t'
}

/// A text with nothing to escape is quoted as it is.
pub proof fn lemma_quote_plain_text(s: Seq<char>)
    requires
        forall|i: int| 0 <= i < s.len() ==> !needs_escape(#[trigger] s[i]),
    ensures
        spec_quote_text_literal(s) == seq!['"'] + s + seq!['"'],
        spec_quote_text_literal(s).len() == s.len() + 2,
    decreases s.len(),
{
    lemma_escape_all_plain(s);
}

proof fn lemma_escape_all_plain(s: Seq<char>)
    requires
        forall|i: int| 0 <= i < s.len() ==> !needs_escape(#[trigger] s[i]),
    ensures
        escape_all(s) == s,
    decreases s.len(),
{
    if s.len() > 0 {
        let p = s.drop_last();
        assert forall|i: int| 0 <= i < p.len() implies !needs_escape(#[trigger] p[i]) by {
            assert(p[i] == s[i]);
        }
        lemma_escape_all_plain(p);
        assert(!needs_escape(s[s.len() - 1]));
        assert(p.push(s.last()) =~= s);
        assert(escape_all(s) =~= s);
    } else {
        assert(escape_all(s) =~= s);
    }
}

/// A single character that needs no escape is quoted as quote, itself, quote.
pub proof fn lemma_quote_plain_char(c: char)
    requires
        !needs_escape(c),
    ensures
        spec_quote_text_literal(seq![c]) == seq!['"', c, '"'],
{
    lemma_quote_plain_text(seq![c]);
    assert(seq!['"'] + seq![c] + seq!['"'] =~= seq!['"', c, '"']);
}

/// Each escaped character becomes a backslash and one letter: `\\`, `\"`,
/// `\n`, `\r`, `\t`.
pub proof fn lemma_quote_escaped_chars()
    ensures
        spec_quote_text_literal(seq!['\\']) == seq!['"', '\\', '\\', '"'],
        spec_quote_text_literal(seq!['"']) == seq!['"', '\\', '"', '"'],
        spec_quote_text_literal(seq!['\n']) == seq!['"', '\\', 'n', '"'],
        spec_quote_text_literal(seq!['\r']) == seq!['"', '\\', 'r', '"'],
        spec_quote_text_literal(seq!['\t']) == seq!['"', '\\', 't', '"'],
{
    let e = Seq::<char>::empty();
    assert(seq!['\\'].drop_last() =~= e);
    assert(seq!['"'].drop_last() =~= e);
    assert(seq!['\n'].drop_last() =~= e);
    assert(seq!['\r'].drop_last() =~= e);
    assert(seq!['\t'].drop_last() =~= e);
    assert(escape_all(e) =~= e);
    assert(spec_quote_text_literal(seq!['\\']) =~= seq!['"', '\\', '\\', '"']);
    assert(spec_quote_text_literal(seq!['"']) =~= seq!['"', '\\', '"', '"']);
    assert(spec_quote_text_literal(seq!['\n']) =~= seq!['"', '\\', 'n', '"']);
    assert(spec_quote_text_literal(seq!['\r']) =~= seq!['"', '\\', 'r', '"']);
    assert(spec_quote_text_literal(seq!['\t']) =~= seq!['"', '\\', 't', '"']);
}

/// Quoting works character by character: the literal of `a + b` is the
/// literal of `a` without its closing quote, then that of `b` without its
/// opening quote.
pub proof fn lemma_quote_concat(a: Seq<char>, b: Seq<char>)
    ensures
        spec_quote_text_literal(a + b) == spec_quote_text_literal(a).drop_last() + spec_quote_text_literal(
            b,
        ).drop_first(),
{
    lemma_escape_all_add(a, b);
    assert(spec_quote_text_literal(a + b) =~= spec_quote_text_literal(a).drop_last()
        + spec_quote_text_literal(b).drop_first());
}


/// What one character becomes in a sanitized name: itself if it is an ASCII
/// letter or digit, `_` otherwise.
pub open spec fn ident_char_for(c: char) -> char {
    if is_alnum(c) {
        c
    } else {
        '_'
    }
}

/// Every character of `s` as a sanitized name writes it.
pub open spec fn ident_chars(s: Seq<char>) -> Seq<char> {
    s.map_values(|c: char| ident_char_for(c))
}

proof fn lemma_sanitize_chars_map(s: Seq<char>)
    requires
        s.len() > 0,
    ensures
        sanitize_chars(s) == (if is_digit(s[0]) { seq!['_'] } else { Seq::<char>::empty() }) + ident_chars(s),
    decreases s.len(),
{
    let pre = if is_digit(s[0]) { seq!['_'] } else { Seq::<char>::empty() };
    if s.len() == 1 {
        assert(s.drop_last().len() == 0);
        assert(sanitize_chars(s.drop_last()) =~= Seq::<char>::empty());
        assert(s.last() == s[0]);
        assert(sanitize_chars(s) =~= pre + ident_chars(s));
    } else {
        let p = s.drop_last();
        assert(p[0] == s[0]);
        lemma_sanitize_chars_map(p);
        assert(ident_chars(s) =~= ident_chars(p).push(ident_char_for(s.last())));
        assert(sanitize_chars(s) =~= pre + ident_chars(s));
    }
}

/// A sanitized nonempty name keeps every ASCII letter and digit in place and
/// puts `_` for every other character, with one `_` in front when the name
/// starts with a digit; type and field names are sanitized alike.
pub proof fn lemma_sanitize_maps_chars(s: Seq<char>)
    requires
        s.len() > 0,
    ensures
        spec_sanitize_type_name(s) == spec_sanitize_field_name(s),
        is_digit(s[0]) ==> spec_sanitize_type_name(s) == seq!['_'] + ident_chars(s),
        !is_digit(s[0]) ==> spec_sanitize_type_name(s) == ident_chars(s),
{
    lemma_sanitize_chars_map(s);
    assert(Seq::<char>::empty() + ident_chars(s) =~= ident_chars(s));
}

proof fn lemma_enum_case_state_append(x: Seq<char>, b: Seq<char>)
    requires
        enum_case_state(x).1,
    ensures
        enum_case_state(x + b) == (enum_case_state(x).0 + enum_case_state(b).0, enum_case_state(b).1),
    decreases b.len(),
{
    if b.len() == 0 {
        assert(x + b =~= x);
        assert(enum_case_state(x).0 + Seq::<char>::empty() =~= enum_case_state(x).0);
    } else {
        lemma_enum_case_state_append(x, b.drop_last());
        assert((x + b).drop_last() =~= x + b.drop_last());
        assert((x + b).last() == b.last());
        let (o1, f1) = enum_case_state(x + b.drop_last());
        let (o2, f2) = enum_case_state(b.drop_last());
        assert(o1 == enum_case_state(x).0 + o2 && f1 == f2);
        assert((enum_case_state(x).0 + o2).push(to_upper(b.last())) =~= enum_case_state(x).0 + o2.push(
            to_upper(b.last()),
        ));
        assert((enum_case_state(x).0 + o2).push(b.last()) =~= enum_case_state(x).0 + o2.push(b.last()));
        let lhs = enum_case_state(x + b);
        let rhs = enum_case_state(b);
        assert(lhs.0 == enum_case_state(x).0 + rhs.0);
        assert(lhs.1 == rhs.1);
    }
}

/// One word of ASCII letters and digits becomes itself with its first
/// letter upper-cased.
pub proof fn lemma_enum_case_word(w: Seq<char>)
    requires
        w.len() > 0,
        forall|i: int| 0 <= i < w.len() ==> is_alnum(#[trigger] w[i]),
    ensures
        enum_case_state(w).0 == seq![to_upper(w[0])] + w.drop_first(),
        !enum_case_state(w).1,
    decreases w.len(),
{
    if w.len() == 1 {
        assert(w.drop_last().len() == 0);
        assert(w.last() == w[0]);
        assert(is_alnum(w[0]));
        assert(enum_case_state(w.drop_last()) == (Seq::<char>::empty(), true));
        assert(seq![to_upper(w[0])] + w.drop_first() =~= Seq::<char>::empty().push(to_upper(w[0])));
    } else {
        let p = w.drop_last();
        assert forall|i: int| 0 <= i < p.len() implies is_alnum(#[trigger] p[i]) by {
            assert(p[i] == w[i]);
        }
        lemma_enum_case_word(p);
        lemma_enum_case_state_shape(p);
        assert(is_alnum(w[w.len() - 1]));
        assert(p[0] == w[0]);
        assert((seq![to_upper(p[0])] + p.drop_first()).push(w.last()) =~= seq![to_upper(w[0])]
            + w.drop_first());
    }
}

/// Words are joined: a character that is not an ASCII letter or digit ends
/// a word, and what follows it is converted on its own and appended.
pub proof fn lemma_enum_case_separator(a: Seq<char>, sep: char, b: Seq<char>)
    requires
        !is_alnum(sep),
    ensures
        enum_case_state(a + seq![sep] + b).0 == enum_case_state(a).0 + enum_case_state(b).0,
{
    let x = a + seq![sep];
    assert(x.drop_last() =~= a);
    assert(x.last() == sep);
    assert(enum_case_state(x) == (enum_case_state(a).0, true));
    lemma_enum_case_state_append(x, b);
}

} // verus!
