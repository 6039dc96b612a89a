//! The grammars of DID strings and of the identifiers of each method, as
//! predicates on character sequences, and what follows from them.

use vstd::prelude::*;
use vstd::utf8::is_ascii_chars;

verus! {

/// `a` to `z`.
pub open spec fn is_lower(c: char) -> bool {
    'a' <= c <= 'z'
}

/// `A` to `Z`.
pub open spec fn is_upper(c: char) -> bool {
    'A' <= c <= 'Z'
}

/// `0` to `9`.
pub open spec fn is_digit(c: char) -> bool {
    '0' <= c <= '9'
}

/// An ASCII letter or digit.
pub open spec fn is_alphanumeric(c: char) -> bool {
    is_lower(c) || is_upper(c) || is_digit(c)
}

/// A PLC identifier: one or more lowercase letters or digits.
pub open spec fn is_plc_identifier(s: Seq<char>) -> bool {
    &&& s.len() >= 1
    &&& forall|i: int| 0 <= i < s.len() ==> is_lower(#[trigger] s[i]) || is_digit(s[i])
}

/// A DNS label: letters, digits and hyphens, with no hyphen at either end.
pub open spec fn is_label(s: Seq<char>) -> bool {
    &&& s.len() >= 1
    &&& is_alphanumeric(s.first())
    &&& is_alphanumeric(s.last())
    &&& forall|i: int| 0 <= i < s.len() ==> is_alphanumeric(#[trigger] s[i]) || s[i] == '-'
}

/// The labels written one after another, with a `.` between neighbours.
pub open spec fn join_labels(labels: Seq<Seq<char>>) -> Seq<char>
    decreases labels.len(),
{
    if labels.len() == 0 {
        Seq::empty()
    } else if labels.len() == 1 {
        labels[0]
    } else {
        join_labels(labels.drop_last()) + seq!['.'] + labels.last()
    }
}

/// `s` is these labels joined by dots, and there are at least two of them.
pub open spec fn spells_host(labels: Seq<Seq<char>>, s: Seq<char>) -> bool {
    &&& labels.len() >= 2
    &&& forall|k: int| 0 <= k < labels.len() ==> is_label(#[trigger] labels[k])
    &&& join_labels(labels) == s
}

/// A Web identifier: two or more DNS labels joined by dots.
pub open spec fn is_web_identifier(s: Seq<char>) -> bool {
    exists|labels: Seq<Seq<char>>| spells_host(labels, s)
}

/// What a left-to-right scan can see of dotted labels: only letters, digits,
/// hyphens and dots; a letter or digit at either end and on both sides of
/// every dot.
pub open spec fn is_dotted(s: Seq<char>) -> bool {
    &&& s.len() >= 1
    &&& is_alphanumeric(s.first())
    &&& is_alphanumeric(s.last())
    &&& forall|i: int|
        0 <= i < s.len() ==> is_alphanumeric(#[trigger] s[i]) || s[i] == '-' || s[i] == '.'
    &&& forall|i: int|
        0 < i < s.len() - 1 && #[trigger] s[i] == '.' ==> is_alphanumeric(s[i - 1])
            && is_alphanumeric(s[i + 1])
}

/// One or more labels joined by dots have the shape that a scan sees, and
/// hold a dot exactly when there is more than one label.
pub proof fn lemma_joined_labels_are_dotted(labels: Seq<Seq<char>>)
    requires
        labels.len() >= 1,
        forall|k: int| 0 <= k < labels.len() ==> is_label(#[trigger] labels[k]),
    ensures
        is_dotted(join_labels(labels)),
        join_labels(labels).contains('.') <==> labels.len() >= 2,
    decreases labels.len(),
{
    let s = join_labels(labels);
    if labels.len() >= 2 {
        let front = labels.drop_last();
        let last = labels.last();
        assert(is_label(last));
        assert forall|k: int| 0 <= k < front.len() implies is_label(#[trigger] front[k]) by {
            assert(front[k] == labels[k]);
        }
        lemma_joined_labels_are_dotted(front);
        let p = join_labels(front);
        assert(s == p + seq!['.'] + last);
        assert(s[p.len() as int] == '.');
        assert(s.last() == last.last());
        assert forall|i: int| 0 < i < s.len() - 1 && #[trigger] s[i] == '.' implies is_alphanumeric(
            s[i - 1],
        ) && is_alphanumeric(s[i + 1]) by {
            if i < p.len() {
                assert(i < p.len() - 1);
            } else if i > p.len() {
                assert(s[i] == last[i - p.len() - 1]);
            }
        }
    }
}

/// Text of the scanned shape splits at its dots into labels.
pub proof fn lemma_dotted_splits_into_labels(s: Seq<char>) -> (labels: Seq<Seq<char>>)
    requires
        is_dotted(s),
    ensures
        labels.len() >= 1,
        forall|k: int| 0 <= k < labels.len() ==> is_label(#[trigger] labels[k]),
        join_labels(labels) == s,
        s.contains('.') ==> labels.len() >= 2,
    decreases s.len(),
{
    s.index_of_last_ensures('.');
    match s.index_of_last('.') {
        None => {
            assert(is_label(s));
            seq![s]
        },
        Some(k) => {
            let p = s.subrange(0, k);
            let last = s.subrange(k + 1, s.len() as int);
            assert(is_label(last)) by {
                assert forall|i: int| 0 <= i < last.len() implies is_alphanumeric(
                    #[trigger] last[i],
                ) || last[i] == '-' by {
                    assert(last[i] == s[k + 1 + i]);
                }
            }
            assert(is_dotted(p)) by {
                assert(p.first() == s.first());
                assert forall|i: int| 0 < i < p.len() - 1 && #[trigger] p[i]
                    == '.' implies is_alphanumeric(p[i - 1]) && is_alphanumeric(p[i + 1]) by {
                    assert(p[i - 1] == s[i - 1]);
                    assert(p[i + 1] == s[i + 1]);
                }
            }
            let front = lemma_dotted_splits_into_labels(p);
            let labels = front.push(last);
            assert(labels.drop_last() == front);
            assert(p + seq!['.'] + last == s);
            labels
        },
    }
}

/// A Web identifier is text of the scanned shape that holds a dot.
pub proof fn lemma_web_identifier_shape(s: Seq<char>)
    ensures
        is_web_identifier(s) <==> is_dotted(s) && s.contains('.'),
{
    if is_web_identifier(s) {
        let labels = choose|labels: Seq<Seq<char>>| spells_host(labels, s);
        lemma_joined_labels_are_dotted(labels);
    }
    if is_dotted(s) && s.contains('.') {
        let labels = lemma_dotted_splits_into_labels(s);
        assert(spells_host(labels, s));
    }
}

/// A character that may stand after the method name of a DID.
pub open spec fn is_did_char(c: char) -> bool {
    is_alphanumeric(c) || c == '.' || c == '_' || c == ':' || c == '%' || c == '-'
}

/// A method name: one or more lowercase letters.
pub open spec fn is_method_name(m: Seq<char>) -> bool {
    &&& m.len() >= 1
    &&& forall|i: int| 0 <= i < m.len() ==> is_lower(#[trigger] m[i])
}

/// What may follow the method name and its colon: one or more DID
/// characters, the last of them no colon.
pub open spec fn is_remainder(r: Seq<char>) -> bool {
    &&& r.len() >= 1
    &&& forall|i: int| 0 <= i < r.len() ==> is_did_char(#[trigger] r[i])
    &&& r.last() != ':'
}

/// `did:`, the method name, `:`, and the identifier.
pub open spec fn did_text(method: Seq<char>, identifier: Seq<char>) -> Seq<char> {
    "did:"@ + method + ":"@ + identifier
}

/// `s` is `did:<method>:<remainder>` with this method name and this remainder.
pub open spec fn splits_into(s: Seq<char>, method: Seq<char>, remainder: Seq<char>) -> bool {
    &&& is_method_name(method)
    &&& is_remainder(remainder)
    &&& s == did_text(method, remainder)
}

/// The overall grammar of a DID string: `did:<lowercase-letters>:<remainder>`.
pub open spec fn is_did_syntax(s: Seq<char>) -> bool {
    exists|method: Seq<char>, remainder: Seq<char>| splits_into(s, method, remainder)
}

/// The method name and the remainder of a string of the DID syntax.
pub open spec fn did_parts(s: Seq<char>) -> (Seq<char>, Seq<char>) {
    choose|parts: (Seq<char>, Seq<char>)| splits_into(s, parts.0, parts.1)
}

/// The DID syntax seen from the position `k` of the colon that ends the
/// method name.
pub open spec fn splits_at(s: Seq<char>, k: int) -> bool {
    &&& 4 < k < s.len() - 1
    &&& s[0] == 'd' && s[1] == 'i' && s[2] == 'd' && s[3] == ':'
    &&& forall|i: int| 4 <= i < k ==> is_lower(#[trigger] s[i])
    &&& s[k] == ':'
    &&& forall|i: int| k < i < s.len() ==> is_did_char(#[trigger] s[i])
    &&& s.last() != ':'
}

/// A split into method name and remainder puts the colon between them
/// behind the method name, and the two parts are the text on either side.
pub proof fn lemma_split_position(s: Seq<char>, method: Seq<char>, remainder: Seq<char>)
    requires
        splits_into(s, method, remainder),
    ensures
        splits_at(s, 4 + method.len() as int),
        method == s.subrange(4, 4 + method.len() as int),
        remainder == s.subrange(5 + method.len() as int, s.len() as int),
{
    reveal_strlit("did:");
    reveal_strlit(":");
    let k: int = 4 + method.len() as int;
    assert forall|i: int| 4 <= i < k implies is_lower(#[trigger] s[i]) by {
        assert(s[i] == method[i - 4]);
    }
    assert forall|i: int| k < i < s.len() implies is_did_char(#[trigger] s[i]) by {
        assert(s[i] == remainder[i - k - 1]);
    }
    assert(s.last() == remainder.last());
    assert(method =~= s.subrange(4, k));
    assert(remainder =~= s.subrange(k + 1, s.len() as int));
}

/// The colon that ends the method name is the first one behind `did:`, so a
/// string splits in one way at most.
pub proof fn lemma_split_unique(s: Seq<char>, j: int, k: int)
    requires
        splits_at(s, j),
        splits_at(s, k),
    ensures
        j == k,
{
    if j < k {
        assert(is_lower(s[j]));
    } else if k < j {
        assert(is_lower(s[k]));
    }
}

/// A string of the DID syntax begins with `did:` and is no shorter than
/// `did:a:b`.
pub proof fn lemma_did_syntax_start(s: Seq<char>)
    requires
        is_did_syntax(s),
    ensures
        s.len() >= 7,
        s[0] == 'd' && s[1] == 'i' && s[2] == 'd' && s[3] == ':',
{
    let (method, remainder) = choose|method: Seq<char>, remainder: Seq<char>|
        splits_into(s, method, remainder);
    lemma_split_position(s, method, remainder);
}

/// A string of the DID syntax splits where the lowercase letters behind
/// `did:` end.
pub proof fn lemma_split_found(s: Seq<char>, k: int)
    requires
        is_did_syntax(s),
        4 <= k <= s.len(),
        forall|i: int| 4 <= i < k ==> is_lower(#[trigger] s[i]),
        k < s.len() ==> !is_lower(s[k]),
    ensures
        splits_at(s, k),
{
    let (method, remainder) = choose|method: Seq<char>, remainder: Seq<char>|
        splits_into(s, method, remainder);
    lemma_split_position(s, method, remainder);
    let j = 4 + method.len() as int;
    if j < k {
        assert(is_lower(s[j]));
    } else if k < j {
        assert(is_lower(s[k]));
    }
}

/// Text with the colon at `k` is of the DID syntax, and its parts are the
/// text on either side of that colon.
pub proof fn lemma_split_at(s: Seq<char>, k: int)
    requires
        splits_at(s, k),
    ensures
        is_did_syntax(s),
        did_parts(s) == (s.subrange(4, k), s.subrange(k + 1, s.len() as int)),
{
    let method = s.subrange(4, k);
    let remainder = s.subrange(k + 1, s.len() as int);
    reveal_strlit("did:");
    reveal_strlit(":");
    assert(s =~= did_text(method, remainder));
    let parts = did_parts(s);
    assert(splits_into(s, parts.0, parts.1)) by {
        let witness = (method, remainder);
        assert(splits_into(s, witness.0, witness.1));
    }
    lemma_split_position(s, parts.0, parts.1);
    lemma_split_unique(s, k, 4 + parts.0.len() as int);
}

/// A method name and a remainder, written as a DID, are read back as they
/// were written.
pub proof fn lemma_did_text_parts(method: Seq<char>, remainder: Seq<char>)
    requires
        is_method_name(method),
        is_remainder(remainder),
    ensures
        is_did_syntax(did_text(method, remainder)),
        did_parts(did_text(method, remainder)) == (method, remainder),
{
    let s = did_text(method, remainder);
    lemma_split_position(s, method, remainder);
    lemma_split_at(s, 4 + method.len() as int);
}

/// Each grammar of this module is made of ASCII characters alone.
pub proof fn lemma_grammars_are_ascii(s: Seq<char>)
    ensures
        is_plc_identifier(s) ==> is_ascii_chars(s),
        is_web_identifier(s) ==> is_ascii_chars(s),
        is_did_syntax(s) ==> is_ascii_chars(s),
{
    lemma_web_identifier_shape(s);
    if is_did_syntax(s) {
        let (method, remainder) = choose|method: Seq<char>, remainder: Seq<char>|
            splits_into(s, method, remainder);
        lemma_split_position(s, method, remainder);
        let k = 4 + method.len() as int;
        assert forall|i: int| 0 <= i < s.len() implies '\0' <= #[trigger] s[i] <= '\u{7f}' by {
            if 4 <= i < k {
                assert(is_lower(s[i]));
            } else if k < i {
                assert(is_did_char(s[i]));
            }
        }
    }
}

} // verus!
