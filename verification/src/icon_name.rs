//! Names for icon enum variants, made from icon file stems: PascalCase words
//! of ASCII letters and digits, never starting with a digit, never a reserved
//! word, and made unique with a number when a name repeats.
use vstd::prelude::*;

use crate::keyed::StringSet;
use crate::text::{
    ascii_upper, ascii_upper_exec, chars_of, decimal, decimal_chars, is_ascii_alphanumeric_char,
    is_ascii_alphanumeric_exec, is_ascii_digit_char, is_ascii_lower_char, is_ascii_upper_char,
    lemma_decimal_injective, string_from_chars,
};

verus! {

/// The stem's ASCII letters and digits, each run of them starting with an
/// uppercase letter; every other character only separates runs.
pub open spec fn pascal_words(s: Seq<char>) -> Seq<char>
    decreases s.len(),
{
    if s.len() == 0 {
        Seq::empty()
    } else {
        let p = pascal_words(s.drop_last());
        let c = s.last();
        if !is_ascii_alphanumeric_char(c) {
            p
        } else if s.len() == 1 || !is_ascii_alphanumeric_char(s[s.len() - 2]) {
            p.push(ascii_upper(c))
        } else {
            p.push(c)
        }
    }
}

/// Names that cannot be variants as they are.
pub open spec fn is_reserved(s: Seq<char>) -> bool {
    s == "Self"@ || s == "Super"@ || s == "Crate"@ || s == "Extern"@
}

/// The variant name of a stem: its PascalCase words, "Icon" when there are
/// none, "Icon" in front when they start with a digit, and "Icon" behind a
/// reserved word.
pub open spec fn variant_of(stem: Seq<char>) -> Seq<char> {
    let p = pascal_words(stem);
    let q = if p.len() == 0 {
        "Icon"@
    } else {
        p
    };
    let r = if is_ascii_digit_char(q[0]) {
        "Icon"@ + q
    } else {
        q
    };
    if is_reserved(r) {
        r + "Icon"@
    } else {
        r
    }
}

/// A name fit for an enum variant: not empty, ASCII letters and digits only,
/// starting with a letter.
pub open spec fn is_identifier_like(s: Seq<char>) -> bool {
    &&& s.len() > 0
    &&& forall|i: int| 0 <= i < s.len() ==> is_ascii_alphanumeric_char(#[trigger] s[i])
    &&& (is_ascii_upper_char(s[0]) || is_ascii_lower_char(s[0]))
}

proof fn lemma_pascal_alphanumeric(s: Seq<char>)
    ensures
        forall|i: int|
            0 <= i < pascal_words(s).len() ==> is_ascii_alphanumeric_char(
                #[trigger] pascal_words(s)[i],
            ),
    decreases s.len(),
{
    if s.len() > 0 {
        lemma_pascal_alphanumeric(s.drop_last());
        lemma_upper_alphanumeric(s.last());
        let p = pascal_words(s.drop_last());
        let w = pascal_words(s);
        assert forall|i: int| 0 <= i < w.len() implies is_ascii_alphanumeric_char(#[trigger] w[i]) by {
            if i < p.len() {
                assert(w[i] == p[i]);
            }
        }
    }
}

proof fn lemma_upper_alphanumeric(c: char)
    ensures
        is_ascii_alphanumeric_char(c) ==> is_ascii_alphanumeric_char(ascii_upper(c)),
{
    if is_ascii_lower_char(c) {
        let u = (c as u32) - 32;
        assert(65 <= u <= 90);
        assert(('A' as u32) == 65);
        assert(((u as char) as u32) == u);
    }
}

proof fn lemma_icon_text()
    ensures
        "Icon"@ == seq!['I', 'c', 'o', 'n'],
{
    reveal_strlit("Icon");
}

/// Every variant name is fit for an enum variant.
pub proof fn lemma_variant_is_identifier(stem: Seq<char>)
    ensures
        is_identifier_like(variant_of(stem)),
{
    lemma_pascal_alphanumeric(stem);
    lemma_icon_text();
    let p = pascal_words(stem);
    let q = if p.len() == 0 {
        "Icon"@
    } else {
        p
    };
    assert forall|i: int| 0 <= i < q.len() implies is_ascii_alphanumeric_char(#[trigger] q[i]) by {}
    let r = if is_ascii_digit_char(q[0]) {
        "Icon"@ + q
    } else {
        q
    };
    assert forall|i: int| 0 <= i < r.len() implies is_ascii_alphanumeric_char(#[trigger] r[i]) by {
        if is_ascii_digit_char(q[0]) && i >= 4 {
            assert(r[i] == q[i - 4]);
        }
    }
    let v = variant_of(stem);
    assert forall|i: int| 0 <= i < v.len() implies is_ascii_alphanumeric_char(#[trigger] v[i]) by {
        if is_reserved(r) && i >= r.len() {
            assert(v[i] == "Icon"@[i - r.len()]);
        }
    }
}

/// The variant name of a file stem (see `variant_of`); it is always fit for an
/// enum variant: it starts with an uppercase letter and is no reserved word.
pub fn variant_name(stem: &str) -> (r: String)
    ensures
        r@ == variant_of(stem@),
        is_identifier_like(r@),
        is_ascii_upper_char(r@[0]),
        !is_reserved(r@),
{
    proof {
        law_variant_starts_upper_and_is_not_reserved(stem@);
    }
    let chars = chars_of(stem);
    let n = chars.len();
    let mut out: Vec<char> = Vec::new();
    let mut i: usize = 0;
    while i < n
        invariant
            i <= n,
            n == chars@.len(),
            chars@ == stem@,
            out@ == pascal_words(chars@.subrange(0, i as int)),
        decreases n - i,
    {
        let c = chars[i];
        proof {
            let pre = chars@.subrange(0, i + 1);
            assert(pre.drop_last() =~= chars@.subrange(0, i as int));
            assert(pre.last() == c);
            if i > 0 {
                assert(pre[pre.len() - 2] == chars@[i - 1]);
            }
        }
        if is_ascii_alphanumeric_exec(c) {
            if i == 0 || !is_ascii_alphanumeric_exec(chars[i - 1]) {
                out.push(ascii_upper_exec(c));
            } else {
                out.push(c);
            }
        }
        i += 1;
    }
    proof {
        assert(chars@.subrange(0, n as int) =~= chars@);
        lemma_icon_text();
    }
    let icon = chars_of("Icon");
    if out.len() == 0 {
        out = chars_of("Icon");
    }
    if '0' <= out[0] && out[0] <= '9' {
        let mut prefixed = chars_of("Icon");
        prefixed.append(&mut out);
        out = prefixed;
    }
    let reserved = is_text(out.as_slice(), "Self") || is_text(out.as_slice(), "Super") || is_text(
        out.as_slice(),
        "Crate",
    ) || is_text(out.as_slice(), "Extern");
    if reserved {
        let mut suffix = chars_of("Icon");
        out.append(&mut suffix);
    }
    proof {
        lemma_variant_is_identifier(stem@);
    }
    string_from_chars(out.as_slice())
}

/// Whether `s` is exactly the text of `word`.
fn is_text(s: &[char], word: &str) -> (r: bool)
    ensures
        r == (s@ == word@),
{
    let w = chars_of(word);
    crate::text::chars_eq(s, w.as_slice())
}

/// The numbered form of a variant name, for the `k`-th use of it.
pub open spec fn numbered(base: Seq<char>, k: nat) -> Seq<char> {
    base + decimal(k)
}

/// A variant name for `stem` that `used` does not hold yet, added to `used`: the
/// plain name when it is free, else the plain name followed by the smallest
/// number from 2 on that makes it free.
pub fn unique_variant_name(stem: &str, used: &mut StringSet) -> (r: String)
    requires
        old(used).wf(),
        old(used).size() + 3 < usize::MAX,
    ensures
        final(used).wf(),
        final(used)@ == old(used)@.insert(r@),
        !old(used)@.contains(r@),
        !old(used)@.contains(variant_of(stem@)) ==> r@ == variant_of(stem@),
        old(used)@.contains(variant_of(stem@)) ==> exists|k: nat|
            k >= 2 && r@ == numbered(variant_of(stem@), k) && forall|j: nat|
                2 <= j < k ==> old(used)@.contains(#[trigger] numbered(variant_of(stem@), j)),
{
    let base = variant_name(stem);
    let base_chars = chars_of(base.as_str());
    if used.insert(base.clone()) {
        return base;
    }
    let ghost b = base@;
    proof {
        old(used).lemma_bounded();
    }
    let limit = used.len() + 2;
    let mut index: usize = 2;
    loop
        invariant
            2 <= index <= limit,
            limit == old(used).size() + 2,
            old(used).size() + 3 < usize::MAX,
            base_chars@ == b,
            b == variant_of(stem@),
            used.wf(),
            used@ == old(used)@,
            used.size() == old(used).size(),
            old(used)@.contains(b),
            old(used)@.finite(),
            old(used)@.len() <= old(used).size(),
            forall|j: nat| 2 <= j < index ==> old(used)@.contains(#[trigger] numbered(b, j)),
        decreases limit - index,
    {
        let mut candidate = base_chars.clone();
        let mut digits = decimal_chars(index);
        candidate.append(&mut digits);
        let candidate = string_from_chars(candidate.as_slice());
        assert(candidate@ == numbered(b, index as nat));
        if used.insert(candidate.clone()) {
            return candidate;
        }
        proof {
            lemma_numbered_fill(b, old(used)@, index as nat + 1);
        }
        index += 1;
    }
}

/// When the numbered names from 2 up to `end` are all held, the set holds at least
/// that many texts.
proof fn lemma_numbered_fill(b: Seq<char>, held: Set<Seq<char>>, end: nat)
    requires
        held.finite(),
        end >= 2,
        forall|j: nat| 2 <= j < end ==> held.contains(#[trigger] numbered(b, j)),
    ensures
        end - 2 <= held.len(),
{
    let range = vstd::set_lib::set_int_range(2, end as int);
    vstd::set_lib::lemma_int_range(2, end as int);
    let f = |j: int| numbered(b, j as nat);
    let names = range.map(f);
    assert(vstd::relations::injective_on(f, range)) by {
        assert forall|x: int, y: int| range.contains(x) && range.contains(y) && #[trigger] f(x) == #[trigger] f(y) implies x == y by {
            assert(decimal(x as nat) =~= f(x).subrange(b.len() as int, f(x).len() as int));
            assert(decimal(y as nat) =~= f(y).subrange(b.len() as int, f(y).len() as int));
            lemma_decimal_injective(x as nat, y as nat);
        }
    }
    vstd::set_lib::lemma_map_size(range, names, f);
    assert forall|t: Seq<char>| names.contains(t) implies held.contains(t) by {
        let x = choose|x: int| range.contains(x) && f(x) == t;
        assert(held.contains(numbered(b, x as nat)));
    }
    vstd::set_lib::lemma_len_subset(names, held);
}

/// The first character of a stem's PascalCase words is an uppercase letter or a digit.
proof fn lemma_pascal_first(s: Seq<char>)
    ensures
        pascal_words(s).len() > 0 ==> is_ascii_upper_char(pascal_words(s)[0])
            || is_ascii_digit_char(pascal_words(s)[0]),
        s.len() > 0 && is_ascii_alphanumeric_char(s.last()) ==> pascal_words(s).len() > 0,
    decreases s.len(),
{
    if s.len() > 0 {
        let t = s.drop_last();
        lemma_pascal_first(t);
        let c = s.last();
        if pascal_words(t).len() == 0 && is_ascii_alphanumeric_char(c) {
            if s.len() > 1 {
                assert(t.last() == s[s.len() - 2]);
            }
            lemma_upper_alphanumeric(c);
            if is_ascii_lower_char(c) {
                let u = (c as u32) - 32;
                assert(65 <= u <= 90);
                assert(((u as char) as u32) == u);
            }
        }
    }
}

/// Every variant name starts with an uppercase letter and is never one of the
/// reserved words.
pub proof fn law_variant_starts_upper_and_is_not_reserved(stem: Seq<char>)
    ensures
        is_ascii_upper_char(variant_of(stem)[0]),
        !is_reserved(variant_of(stem)),
{
    lemma_pascal_first(stem);
    lemma_icon_text();
    reveal_strlit("Self");
    reveal_strlit("Super");
    reveal_strlit("Crate");
    reveal_strlit("Extern");
    let p = pascal_words(stem);
    let q = if p.len() == 0 {
        "Icon"@
    } else {
        p
    };
    let r = if is_ascii_digit_char(q[0]) {
        "Icon"@ + q
    } else {
        q
    };
    assert(is_ascii_upper_char(r[0]));
    if is_reserved(r) {
        assert(r.len() <= 6);
        assert((r + "Icon"@).len() >= 8);
        assert((r + "Icon"@)[0] == r[0]);
    }
}

/// Every variant name is non-empty, ASCII alphanumeric, starts with an
/// uppercase letter and is no reserved word; and a fresh set of used names
/// does not hold it, so `unique_variant_name` with an empty set gives it as is.
pub proof fn law_variant_name_is_fit(stem: Seq<char>)
    ensures
        is_identifier_like(variant_of(stem)),
        is_ascii_upper_char(variant_of(stem)[0]),
        !is_reserved(variant_of(stem)),
        !Set::<Seq<char>>::empty().contains(variant_of(stem)),
{
    lemma_variant_is_identifier(stem);
    law_variant_starts_upper_and_is_not_reserved(stem);
}

} // verus!
