use vstd::prelude::*;

verus! {

/// `prefix` is an initial piece of `s`.
pub open spec fn has_prefix(s: Seq<char>, prefix: Seq<char>) -> bool {
    prefix.len() <= s.len() && s.subrange(0, prefix.len() as int) == prefix
}

/// Whether `prefix` is an initial piece of `s`.
pub fn str_starts_with(s: &str, prefix: &str) -> (r: bool)
    ensures
        r == has_prefix(s@, prefix@),
{
    let n = s.unicode_len();
    let m = prefix.unicode_len();
    if m > n {
        return false;
    }
    let mut i: usize = 0;
    while i < m
        invariant
            n == s@.len(),
            m == prefix@.len(),
            m <= n,
            i <= m,
            s@.subrange(0, i as int) =~= prefix@.subrange(0, i as int),
        decreases m - i,
    {
        if s.get_char(i) != prefix.get_char(i) {
            assert(s@.subrange(0, m as int)[i as int] != prefix@[i as int]);
            return false;
        }
        assert(s@.subrange(0, i + 1) =~= s@.subrange(0, i as int).push(s@[i as int]));
        assert(prefix@.subrange(0, i + 1) =~= prefix@.subrange(0, i as int).push(prefix@[i as int]));
        i = i + 1;
    }
    assert(prefix@.subrange(0, m as int) =~= prefix@);
    true
}

} // verus!

verus! {

/// Whether `c` has the Unicode `White_Space` property: the controls U+0009 to
/// U+000D, the space, U+0085, the no-break space, the Ogham space mark, the
/// spaces U+2000 to U+200A, the line and paragraph separators, the narrow
/// no-break space, the medium mathematical space and the ideographic space.
pub open spec fn is_white_space(c: char) -> bool {
    let v = c as int;
    ||| 0x9 <= v <= 0xd
    ||| v == 0x20
    ||| v == 0x85
    ||| v == 0xa0
    ||| v == 0x1680
    ||| 0x2000 <= v <= 0x200a
    ||| v == 0x2028
    ||| v == 0x2029
    ||| v == 0x202f
    ||| v == 0x205f
    ||| v == 0x3000
}

/// Whether `c` has the Unicode `White_Space` property.
pub fn is_white_space_char(c: char) -> (r: bool)
    ensures
        r == is_white_space(c),
{
    let v = c as u32;
    (0x9 <= v && v <= 0xd) || v == 0x20 || v == 0x85 || v == 0xa0 || v == 0x1680 || (0x2000 <= v
        && v <= 0x200a) || v == 0x2028 || v == 0x2029 || v == 0x202f || v == 0x205f || v == 0x3000
}

/// `s` without its leading white space.
pub open spec fn trim_start(s: Seq<char>) -> Seq<char>
    decreases s.len(),
{
    if s.len() > 0 && is_white_space(s[0]) {
        trim_start(s.drop_first())
    } else {
        s
    }
}

/// `s` without its trailing white space.
pub open spec fn trim_end(s: Seq<char>) -> Seq<char>
    decreases s.len(),
{
    if s.len() > 0 && is_white_space(s.last()) {
        trim_end(s.drop_last())
    } else {
        s
    }
}

/// `s` without leading and trailing white space.
pub open spec fn trimmed(s: Seq<char>) -> Seq<char> {
    trim_end(trim_start(s))
}

/// What a character becomes inside a double-quoted dialog text: a double quote
/// and a line break are written as backslash escapes.
pub open spec fn escaped_char(c: char) -> Seq<char> {
    if c == '"' {
        seq!['\\', '"']
    } else if c == '\n' {
        seq!['\\', 'n']
    } else {
        seq![c]
    }
}

/// `s` with every double quote and line break escaped.
pub open spec fn escaped(s: Seq<char>) -> Seq<char>
    decreases s.len(),
{
    if s.len() == 0 {
        Seq::empty()
    } else {
        escaped(s.drop_last()) + escaped_char(s.last())
    }
}

proof fn lemma_trim_start_skip(s: Seq<char>, k: int)
    requires
        0 <= k <= s.len(),
        forall|i: int| 0 <= i < k ==> is_white_space(#[trigger] s[i]),
    ensures
        trim_start(s) == trim_start(s.subrange(k, s.len() as int)),
    decreases k,
{
    if k > 0 {
        assert(s.drop_first() =~= s.subrange(1, s.len() as int));
        lemma_trim_start_skip(s.drop_first(), k - 1);
        assert(s.drop_first().subrange(k - 1, s.drop_first().len() as int) =~= s.subrange(
            k,
            s.len() as int,
        ));
    } else {
        assert(s.subrange(0, s.len() as int) =~= s);
    }
}

proof fn lemma_trim_end_skip(s: Seq<char>, k: int)
    requires
        0 <= k <= s.len(),
        forall|i: int| k <= i < s.len() ==> is_white_space(#[trigger] s[i]),
    ensures
        trim_end(s) == trim_end(s.subrange(0, k)),
    decreases s.len() - k,
{
    if k < s.len() {
        assert(s.drop_last() =~= s.subrange(0, s.len() - 1));
        lemma_trim_end_skip(s.drop_last(), k);
        assert(s.drop_last().subrange(0, k) =~= s.subrange(0, k));
    } else {
        assert(s.subrange(0, s.len() as int) =~= s);
    }
}

/// `s` without leading and trailing white space.
pub fn trim_text(s: &str) -> (r: String)
    ensures
        r@ == trimmed(s@),
{
    let n = s.unicode_len();
    let mut start: usize = 0;
    while start < n
        invariant
            n == s@.len(),
            start <= n,
            forall|i: int| 0 <= i < start ==> is_white_space(#[trigger] s@[i]),
        ensures
            start <= n,
            forall|i: int| 0 <= i < start ==> is_white_space(#[trigger] s@[i]),
            start < n ==> !is_white_space(s@[start as int]),
        decreases n - start,
    {
        if !is_white_space_char(s.get_char(start)) {
            break;
        }
        start = start + 1;
    }
    let mut end: usize = n;
    while end > start
        invariant
            n == s@.len(),
            start <= end <= n,
            forall|i: int| end <= i < n ==> is_white_space(#[trigger] s@[i]),
        ensures
            start <= end <= n,
            forall|i: int| end <= i < n ==> is_white_space(#[trigger] s@[i]),
            start < end ==> !is_white_space(s@[end - 1]),
        decreases end - start,
    {
        if !is_white_space_char(s.get_char(end - 1)) {
            break;
        }
        end = end - 1;
    }
    proof {
        let rest = s@.subrange(start as int, n as int);
        lemma_trim_start_skip(s@, start as int);
        assert(trim_start(rest) == rest);
        lemma_trim_end_skip(rest, end - start);
        assert(rest.subrange(0, end - start) =~= s@.subrange(start as int, end as int));
    }
    String::from_str(s.substring_char(start, end))
}

/// `s` with every double quote and line break escaped, ready to stand between
/// double quotes in a dialog script.
pub fn escape_quotes_and_newlines(s: &str) -> (r: String)
    ensures
        r@ == escaped(s@),
{
    let n = s.unicode_len();
    let mut out = String::new();
    let mut i: usize = 0;
    while i < n
        invariant
            n == s@.len(),
            i <= n,
            out@ == escaped(s@.subrange(0, i as int)),
        decreases n - i,
    {
        let c = s.get_char(i);
        proof {
            assert(s@.subrange(0, i + 1).drop_last() =~= s@.subrange(0, i as int));
        }
        if c == '"' {
            proof {
                reveal_strlit("\\\"");
                assert("\\\""@ =~= escaped_char(c));
            }
            out.append("\\\"");
        } else if c == '\n' {
            proof {
                reveal_strlit("\\n");
                assert("\\n"@ =~= escaped_char(c));
            }
            out.append("\\n");
        } else {
            out.append(s.substring_char(i, i + 1));
        }
        i = i + 1;
    }
    proof {
        assert(s@.subrange(0, n as int) =~= s@);
    }
    out
}

} // verus!

verus! {

/// Escaped text has no line break, and each double quote in it follows a backslash.
pub proof fn lemma_escaped_is_quotable(s: Seq<char>)
    ensures
        forall|i: int| 0 <= i < escaped(s).len() ==> #[trigger] escaped(s)[i] != '\n',
        forall|i: int|
            0 <= i < escaped(s).len() && #[trigger] escaped(s)[i] == '"' ==> i > 0 && escaped(s)[i
                - 1] == '\\',
    decreases s.len(),
{
    if s.len() > 0 {
        lemma_escaped_is_quotable(s.drop_last());
        let e = escaped(s.drop_last());
        let tail = escaped_char(s.last());
        assert(escaped(s) == e + tail);
        assert forall|i: int| e.len() <= i < escaped(s).len() implies escaped(s)[i] == tail[i
            - e.len()] by {}
    }
}

} // verus!

verus! {

/// `prefix` begins `s` exactly when it is no longer than `s` and every one of
/// its characters equals the character of `s` at the same place.
pub proof fn lemma_has_prefix_pointwise(s: Seq<char>, prefix: Seq<char>)
    ensures
        has_prefix(s, prefix) <==> (prefix.len() <= s.len() && forall|i: int|
            0 <= i < prefix.len() ==> #[trigger] s[i] == prefix[i]),
{
    if prefix.len() <= s.len() && forall|i: int| 0 <= i < prefix.len() ==> #[trigger] s[i]
        == prefix[i] {
        assert(s.subrange(0, prefix.len() as int) =~= prefix);
    }
    if has_prefix(s, prefix) {
        assert forall|i: int| 0 <= i < prefix.len() implies #[trigger] s[i] == prefix[i] by {
            assert(s.subrange(0, prefix.len() as int)[i] == s[i]);
        }
    }
}

} // verus!
