use vstd::prelude::*;

use crate::text::{
    chars_of, char_is_alphanumeric, is_ascii_alphanumeric_spec, string_from_chars,
    unicode_alphanumeric,
};

verus! {

/// Characters that may appear in a model id (`deepseek-v4-flash`,
/// `nvidia/nemotron:free`, `glm-5.2`): alphanumeric ones (among ASCII
/// characters, the letters and digits), `.`, `/`, `_`, `-` and `:`.
pub open spec fn is_model_id_char_spec(c: char) -> bool {
    if (c as u32) < 128 {
        is_ascii_alphanumeric_spec(c) || c == '.' || c == '/' || c == '_' || c == '-' || c == ':'
    } else {
        unicode_alphanumeric(c)
    }
}

pub open spec fn is_ascii_digit_spec(c: char) -> bool {
    '0' <= c && c <= '9'
}

/// The size unit of a context-window suffix: `K` or `M`, in either case.
pub open spec fn is_window_unit(c: char) -> bool {
    c == 'K' || c == 'k' || c == 'M' || c == 'm'
}

/// The first index at or after `k` that does not hold an ASCII digit.
pub open spec fn digits_end(s: Seq<char>, k: int) -> int
    decreases s.len() - k,
{
    if 0 <= k < s.len() && is_ascii_digit_spec(s[k]) {
        digits_end(s, k + 1)
    } else {
        k
    }
}

/// Where `s[i]` opens a window suffix `[<digits><K|M>]`, the index just past its `]`.
pub open spec fn window_suffix_end(s: Seq<char>, i: int) -> Option<int> {
    let j = digits_end(s, i + 1);
    if 0 <= i < s.len() && s[i] == '[' && j > i + 1 && j + 1 < s.len() && is_window_unit(s[j])
        && s[j + 1] == ']' {
        Some(j + 2)
    } else {
        None
    }
}

/// Whether a window suffix that starts at `i` is stripped: it must directly
/// follow a model id character (`ids[k]`: whether `s[k]` is one).
pub open spec fn strips_at(s: Seq<char>, ids: Seq<bool>, i: int) -> bool {
    &&& 0 < i < s.len()
    &&& ids[i - 1]
    &&& window_suffix_end(s, i) is Some
}

/// The text from index `i` on, with every window suffix that directly follows
/// a model id removed, scanning left to right.
pub open spec fn strip_suffixes_from(s: Seq<char>, ids: Seq<bool>, i: int) -> Seq<char>
    decreases s.len() - i,
{
    if i < 0 || i >= s.len() {
        Seq::empty()
    } else if strips_at(s, ids, i) {
        strip_suffixes_from(s, ids, window_suffix_end(s, i)->0)
    } else {
        seq![s[i]] + strip_suffixes_from(s, ids, i + 1)
    }
}

/// For each character of `s`, whether it is a model id character.
pub open spec fn model_id_flags(s: Seq<char>) -> Seq<bool> {
    Seq::new(s.len(), |k: int| is_model_id_char_spec(s[k]))
}

/// `s` with its model window suffixes (`glm-5.2[1M]` -> `glm-5.2`) removed.
pub open spec fn strip_window_suffixes(s: Seq<char>) -> Seq<char> {
    strip_suffixes_from(s, model_id_flags(s), 0)
}

pub fn is_model_id_char(c: char) -> (res: bool)
    ensures
        res == is_model_id_char_spec(c),
{
    char_is_alphanumeric(c) || c == '.' || c == '/' || c == '_' || c == '-' || c == ':'
}

fn window_suffix_end_at(chars: &Vec<char>, i: usize) -> (res: Option<usize>)
    requires
        i < chars.len(),
    ensures
        res matches Some(e) ==> window_suffix_end(chars@, i as int) == Some(e as int),
        res is None ==> window_suffix_end(chars@, i as int) is None,
{
    if chars[i] != '[' {
        return None;
    }
    let mut j: usize = i + 1;
    while j < chars.len() && '0' <= chars[j] && chars[j] <= '9'
        invariant
            i + 1 <= j <= chars.len(),
            digits_end(chars@, i + 1) == digits_end(chars@, j as int),
        decreases chars.len() - j,
    {
        j = j + 1;
    }
    let has_digits = j > i + 1;
    if has_digits && j < chars.len() && j + 1 < chars.len() && (chars[j] == 'K' || chars[j] == 'k' || chars[j] == 'M'
        || chars[j] == 'm') && chars[j + 1] == ']' {
        Some(j + 2)
    } else {
        None
    }
}

/// Removes the window suffixes of `chars` that directly follow a model id
/// character (`model_id[k]`: whether `chars[k]` is one).
pub fn strip_window_suffixes_marked(chars: &Vec<char>, model_id: &Vec<bool>) -> (res: Vec<char>)
    requires
        model_id.len() == chars.len(),
    ensures
        res@ == strip_suffixes_from(chars@, model_id@, 0),
{
    let ghost s = chars@;
    let ghost ids = model_id@;
    let mut out: Vec<char> = Vec::new();
    let mut i: usize = 0;
    while i < chars.len()
        invariant
            s == chars@,
            ids == model_id@,
            model_id.len() == chars.len(),
            i <= chars.len(),
            out@ + strip_suffixes_from(s, ids, i as int) == strip_suffixes_from(s, ids, 0),
        decreases chars.len() - i,
    {
        if i > 0 && model_id[i - 1] {
            if let Some(end) = window_suffix_end_at(chars, i) {
                i = end;
                continue;
            }
        }
        let ghost before = out@;
        out.push(chars[i]);
        assert(before + strip_suffixes_from(s, ids, i as int) =~= out@ + strip_suffixes_from(
            s,
            ids,
            i + 1,
        ));
        i = i + 1;
    }
    assert(out@ =~= out@ + strip_suffixes_from(s, ids, i as int));
    out
}

/// Rewrites every `slug[<digits>K]` / `slug[<digits>M]` context-window suffix
/// in `text` to the bare slug, leaving other brackets (`array[0]`, `[note]`) alone.
pub fn sanitize_model_suffixes_in_text(text: &str) -> (res: String)
    ensures
        res@ == strip_window_suffixes(text@),
{
    let chars = chars_of(text);
    let mut model_id: Vec<bool> = Vec::new();
    let mut i: usize = 0;
    while i < chars.len()
        invariant
            i <= chars.len(),
            model_id@ =~= model_id_flags(chars@).take(i as int),
        decreases chars.len() - i,
    {
        model_id.push(is_model_id_char(chars[i]));
        i = i + 1;
    }
    assert(model_id@ =~= model_id_flags(chars@));
    string_from_chars(&strip_window_suffixes_marked(&chars, &model_id))
}

/// The cleaned body of a log row, where the cleanup changes it (the row is then
/// rewritten); `None` where the body stays as it is.
pub fn sanitized_log_body(body: &str) -> (res: Option<String>)
    ensures
        res matches Some(s) ==> s@ == strip_window_suffixes(body@) && s@ != body@,
        res is None ==> strip_window_suffixes(body@) == body@,
{
    let sanitized = sanitize_model_suffixes_in_text(body);
    if crate::text::str_eq(sanitized.as_str(), body) {
        None
    } else {
        Some(sanitized)
    }
}

proof fn lemma_unchanged_from(s: Seq<char>, ids: Seq<bool>, i: int)
    requires
        0 <= i <= s.len(),
        forall|k: int| i <= k < s.len() ==> !strips_at(s, ids, k),
    ensures
        strip_suffixes_from(s, ids, i) == s.subrange(i, s.len() as int),
    decreases s.len() - i,
{
    if i < s.len() {
        lemma_unchanged_from(s, ids, i + 1);
        assert(seq![s[i]] + s.subrange(i + 1, s.len() as int) =~= s.subrange(i, s.len() as int));
    } else {
        assert(s.subrange(i, s.len() as int) =~= Seq::<char>::empty());
    }
}

/// A text in which no window suffix directly follows a model id comes back unchanged
/// (so `array[0]` and `some [placeholder] text` are left alone).
pub proof fn text_without_model_window_suffix_is_unchanged(s: Seq<char>)
    requires
        forall|i: int| 0 <= i < s.len() ==> !strips_at(s, model_id_flags(s), i),
    ensures
        strip_window_suffixes(s) == s,
{
    lemma_unchanged_from(s, model_id_flags(s), 0);
    assert(s.subrange(0, s.len() as int) =~= s);
}

/// A text without any `[` comes back unchanged.
pub proof fn text_without_brackets_is_unchanged(s: Seq<char>)
    requires
        !s.contains('['),
    ensures
        strip_window_suffixes(s) == s,
{
    assert forall|i: int| 0 <= i < s.len() implies !strips_at(s, model_id_flags(s), i) by {
        if strips_at(s, model_id_flags(s), i) {
            assert(s.contains(s[i]));
        }
    }
    text_without_model_window_suffix_is_unchanged(s);
}

proof fn lemma_strip_from_not_longer(s: Seq<char>, ids: Seq<bool>, i: int)
    requires
        0 <= i <= s.len(),
    ensures
        strip_suffixes_from(s, ids, i).len() <= s.len() - i,
    decreases s.len() - i,
{
    if i < s.len() {
        if strips_at(s, ids, i) {
            lemma_strip_from_not_longer(s, ids, window_suffix_end(s, i)->0);
        } else {
            lemma_strip_from_not_longer(s, ids, i + 1);
        }
    }
}

/// Sanitizing never makes a text longer.
pub proof fn sanitized_text_is_never_longer(s: Seq<char>)
    ensures
        strip_window_suffixes(s).len() <= s.len(),
{
    lemma_strip_from_not_longer(s, model_id_flags(s), 0);
}

proof fn lemma_digits_end_before_bracket(s: Seq<char>, u: Seq<char>, k: int)
    requires
        0 <= k <= s.len(),
        u.len() > s.len(),
        u.subrange(0, s.len() as int) == s,
        u[s.len() as int] == '[',
    ensures
        digits_end(u, k) == digits_end(s, k),
        digits_end(u, k) <= s.len(),
    decreases s.len() - k,
{
    if k < s.len() {
        assert(u[k] == u.subrange(0, s.len() as int)[k]);
        lemma_digits_end_before_bracket(s, u, k + 1);
    }
}

proof fn lemma_digits_end_of_run(u: Seq<char>, start: int, end: int, k: int)
    requires
        0 <= start <= k <= end < u.len(),
        forall|j: int| start <= j < end ==> is_ascii_digit_spec(#[trigger] u[j]),
        !is_ascii_digit_spec(u[end]),
    ensures
        digits_end(u, k) == end,
    decreases end - k,
{
    if k < end {
        lemma_digits_end_of_run(u, start, end, k + 1);
    }
}

proof fn lemma_prefix_unchanged(u: Seq<char>, ids: Seq<bool>, n: int, k: int)
    requires
        0 <= k <= n <= u.len(),
        forall|i: int| k <= i < n ==> !strips_at(u, ids, i),
        strip_suffixes_from(u, ids, n) == Seq::<char>::empty(),
    ensures
        strip_suffixes_from(u, ids, k) == u.subrange(k, n),
    decreases n - k,
{
    if k < n {
        lemma_prefix_unchanged(u, ids, n, k + 1);
        assert(seq![u[k]] + u.subrange(k + 1, n) =~= u.subrange(k, n));
    } else {
        assert(u.subrange(k, n) =~= Seq::<char>::empty());
    }
}

/// A window suffix right after a model id is removed, and nothing else is: in
/// a text with no other window suffix after a model id, appending
/// `[<digits><K|M>]` to a trailing model id and sanitizing gives back the text
/// (`glm-5.2[1M]` -> `glm-5.2`).
pub proof fn window_suffix_after_model_id_is_removed(s: Seq<char>, digits: Seq<char>, unit: char)
    requires
        s.len() > 0,
        is_model_id_char_spec(s.last()),
        forall|i: int| 0 <= i < s.len() ==> !strips_at(s, model_id_flags(s), i),
        digits.len() > 0,
        forall|k: int| 0 <= k < digits.len() ==> is_ascii_digit_spec(#[trigger] digits[k]),
        is_window_unit(unit),
    ensures
        strip_window_suffixes(s + seq!['['] + digits + seq![unit, ']']) == s,
{
    let n = s.len() as int;
    let m = digits.len() as int;
    let u = s + seq!['['] + digits + seq![unit, ']'];
    let ids_s = model_id_flags(s);
    let ids_u = model_id_flags(u);
    assert(u.len() == n + m + 3);
    assert(u.subrange(0, n) =~= s);
    assert(u[n] == '[');
    assert forall|j: int| n + 1 <= j < n + 1 + m implies is_ascii_digit_spec(#[trigger] u[j]) by {
        assert(u[j] == digits[j - n - 1]);
    }
    assert(u[n + 1 + m] == unit);
    assert(u[n + 2 + m] == ']');
    lemma_digits_end_of_run(u, n + 1, n + 1 + m, n + 1);
    assert(window_suffix_end(u, n) == Some(n + m + 3));
    assert(ids_u[n - 1] == is_model_id_char_spec(s.last()));
    assert(strips_at(u, ids_u, n));
    assert(strip_suffixes_from(u, ids_u, n + m + 3) == Seq::<char>::empty());
    assert(strip_suffixes_from(u, ids_u, n) == Seq::<char>::empty());
    assert forall|i: int| 0 <= i < n implies !strips_at(u, ids_u, i) by {
        if strips_at(u, ids_u, i) {
            lemma_digits_end_before_bracket(s, u, i + 1);
            let j = digits_end(u, i + 1);
            assert(u[i] == s[i]);
            assert(ids_u[i - 1] == ids_s[i - 1]) by {
                assert(u[i - 1] == s[i - 1]);
            }
            if j + 1 < n {
                assert(u[j] == s[j] && u[j + 1] == s[j + 1]);
                assert(window_suffix_end(s, i) == Some(j + 2));
                assert(strips_at(s, ids_s, i));
            }
        }
    }
    lemma_prefix_unchanged(u, ids_u, n, 0);
    assert(u.subrange(0, n) =~= s);
}


proof fn lemma_digits_end_shift(u: Seq<char>, t: Seq<char>, off: int, k: int)
    requires
        0 <= off <= k,
        u.len() == off + t.len(),
        forall|j: int| 0 <= j < t.len() ==> u[off + j] == #[trigger] t[j],
    ensures
        digits_end(u, k) == digits_end(t, k - off) + off,
    decreases u.len() - k,
{
    if k < u.len() {
        assert(u[off + (k - off)] == t[k - off]);
        if is_ascii_digit_spec(u[k]) {
            lemma_digits_end_shift(u, t, off, k + 1);
        }
    }
}

proof fn lemma_prefix_kept(u: Seq<char>, ids: Seq<bool>, n: int, k: int)
    requires
        0 <= k <= n <= u.len(),
        forall|i: int| k <= i < n ==> !strips_at(u, ids, i),
    ensures
        strip_suffixes_from(u, ids, k) == u.subrange(k, n) + strip_suffixes_from(u, ids, n),
    decreases n - k,
{
    if k < n {
        lemma_prefix_kept(u, ids, n, k + 1);
        assert(seq![u[k]] + u.subrange(k + 1, n) =~= u.subrange(k, n));
        assert(seq![u[k]] + (u.subrange(k + 1, n) + strip_suffixes_from(u, ids, n)) =~= u.subrange(
            k,
            n,
        ) + strip_suffixes_from(u, ids, n));
    } else {
        assert(u.subrange(k, n) =~= Seq::<char>::empty());
        assert(Seq::<char>::empty() + strip_suffixes_from(u, ids, n) =~= strip_suffixes_from(
            u,
            ids,
            n,
        ));
    }
}

/// A window suffix right after a model id is removed wherever it stands in a
/// text, whatever follows its `]` (a `.`, a letter, more text): between two
/// texts with no window suffix after a model id, where the first ends in a
/// model id, `s[<digits><K|M>]t` sanitizes to `st` (`to glm-5.2[1M].` ->
/// `to glm-5.2.`).
pub proof fn window_suffix_is_removed_wherever_it_stands(
    s: Seq<char>,
    digits: Seq<char>,
    unit: char,
    t: Seq<char>,
)
    requires
        s.len() > 0,
        is_model_id_char_spec(s.last()),
        forall|i: int| 0 <= i < s.len() ==> !strips_at(s, model_id_flags(s), i),
        forall|i: int| 0 <= i < t.len() ==> !strips_at(t, model_id_flags(t), i),
        digits.len() > 0,
        forall|k: int| 0 <= k < digits.len() ==> is_ascii_digit_spec(#[trigger] digits[k]),
        is_window_unit(unit),
    ensures
        strip_window_suffixes(s + seq!['['] + digits + seq![unit, ']'] + t) == s + t,
{
    let n = s.len() as int;
    let m = digits.len() as int;
    let e = n + m + 3;
    let u = s + seq!['['] + digits + seq![unit, ']'] + t;
    let ids_s = model_id_flags(s);
    let ids_t = model_id_flags(t);
    let ids_u = model_id_flags(u);
    assert(u.len() == e + t.len());
    assert(u.subrange(0, n) =~= s);
    assert(u[n] == '[');
    assert forall|j: int| n + 1 <= j < n + 1 + m implies is_ascii_digit_spec(#[trigger] u[j]) by {
        assert(u[j] == digits[j - n - 1]);
    }
    assert(u[n + 1 + m] == unit);
    assert(u[n + 2 + m] == ']');
    assert forall|j: int| 0 <= j < t.len() implies u[e + j] == #[trigger] t[j] by {}
    lemma_digits_end_of_run(u, n + 1, n + 1 + m, n + 1);
    assert(window_suffix_end(u, n) == Some(e));
    assert(ids_u[n - 1] == is_model_id_char_spec(s.last()));
    assert(strips_at(u, ids_u, n));
    // After the suffix: the text `t`, kept as it is.
    assert forall|k: int| e <= k < u.len() implies !strips_at(u, ids_u, k) by {
        if strips_at(u, ids_u, k) {
            if k == e {
                assert(ids_u[k - 1] == is_model_id_char_spec(']'));
            } else {
                let kt = k - e;
                assert(u[k] == t[kt]);
                assert(u[k - 1] == t[kt - 1]);
                assert(ids_t[kt - 1] == ids_u[k - 1]);
                lemma_digits_end_shift(u, t, e, k + 1);
                let j = digits_end(u, k + 1);
                let jt = digits_end(t, kt + 1);
                assert(j == jt + e);
                assert(u[j] == t[jt]);
                assert(u[j + 1] == t[jt + 1]);
                assert(window_suffix_end(t, kt) == Some(jt + 2));
                assert(strips_at(t, ids_t, kt));
            }
        }
    }
    lemma_unchanged_from(u, ids_u, e);
    assert(u.subrange(e, u.len() as int) =~= t);
    assert(strip_suffixes_from(u, ids_u, n) == t);
    // Before the suffix: the text `s`, kept as it is.
    assert forall|i: int| 0 <= i < n implies !strips_at(u, ids_u, i) by {
        if strips_at(u, ids_u, i) {
            lemma_digits_end_before_bracket(s, u, i + 1);
            let j = digits_end(u, i + 1);
            assert(u[i] == s[i]);
            assert(ids_u[i - 1] == ids_s[i - 1]) by {
                assert(u[i - 1] == s[i - 1]);
            }
            if j + 1 < n {
                assert(u[j] == s[j] && u[j + 1] == s[j + 1]);
                assert(window_suffix_end(s, i) == Some(j + 2));
                assert(strips_at(s, ids_s, i));
            }
        }
    }
    lemma_prefix_kept(u, ids_u, n, 0);
    assert(u.subrange(0, n) + t =~= s + t);
}


/// The index where the run of ASCII digits that ends just before `k` starts.
pub open spec fn digits_start(s: Seq<char>, k: int) -> int
    decreases k,
{
    if 0 < k <= s.len() && is_ascii_digit_spec(s[k - 1]) {
        digits_start(s, k - 1)
    } else {
        k
    }
}

/// The slug of a thread's model name that ends in a window suffix: the name
/// is `<slug>[<digits><K|M>]`, with a slug that ends in a model id character
/// (`glm-5.2[1M]` -> `glm-5.2`); `None` for any other name.
pub open spec fn model_suffix_slug(m: Seq<char>) -> Option<Seq<char>> {
    let n = m.len() as int;
    let d = digits_start(m, n - 2);
    if n >= 2 && m[n - 1] == ']' && is_window_unit(m[n - 2]) && 2 <= d && d < n - 2 && m[d - 1]
        == '[' && is_model_id_char_spec(m[d - 2]) {
        Some(m.take(d - 1))
    } else {
        None
    }
}

/// The slug of `model` where it ends in a window suffix (`glm-5.2[1M]` ->
/// `glm-5.2`), as `model_suffix_slug` says; `None` for any other name.
pub fn model_suffix_slug_of(model: &str) -> (res: Option<String>)
    ensures
        res matches Some(slug) ==> model_suffix_slug(model@) == Some(slug@),
        res is None ==> model_suffix_slug(model@) is None,
        res matches Some(slug) ==> slug@.len() < model@.len(),
{
    let chars = chars_of(model);
    let n = chars.len();
    if n < 2 || chars[n - 1] != ']' || !(chars[n - 2] == 'K' || chars[n - 2] == 'k' || chars[n
        - 2] == 'M' || chars[n - 2] == 'm') {
        return None;
    }
    let mut d: usize = n - 2;
    while d > 0 && '0' <= chars[d - 1] && chars[d - 1] <= '9'
        invariant
            n == chars.len(),
            n >= 2,
            d <= n - 2,
            digits_start(chars@, d as int) == digits_start(chars@, n - 2),
        decreases d,
    {
        d = d - 1;
    }
    if d < 2 || d >= n - 2 || chars[d - 1] != '[' || !is_model_id_char(chars[d - 2]) {
        return None;
    }
    let mut slug: Vec<char> = Vec::new();
    let mut i: usize = 0;
    while i < d - 1
        invariant
            d <= chars.len(),
            d >= 2,
            i <= d - 1,
            slug@ == chars@.take(i as int),
        decreases d - 1 - i,
    {
        slug.push(chars[i]);
        assert(slug@ =~= chars@.take(i + 1));
        i = i + 1;
    }
    Some(string_from_chars(&slug))
}

} // verus!
