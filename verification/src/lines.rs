//! Lines in a byte string: a line ends with a line feed, or with the end of
//! the content.

use vstd::prelude::*;

verus! {

/// The number of line feeds in `s`.
pub open spec fn newlines(s: Seq<u8>) -> nat
    decreases s.len(),
{
    if s.len() == 0 {
        0
    } else {
        (if s[0] == 0x0a { 1nat } else { 0nat }) + newlines(s.drop_first())
    }
}

/// The number of lines in `s`: each line feed ends one, and bytes after the
/// last line feed form one more.
pub open spec fn line_count(s: Seq<u8>) -> nat {
    newlines(s) + if s.len() > 0 && s.last() != 0x0a {
        1nat
    } else {
        0nat
    }
}

/// The number of bytes that the first `n` lines of `s` take up, line feeds
/// included; all of `s` where it has no more than `n` lines.
pub open spec fn line_start(s: Seq<u8>, n: nat) -> nat
    decreases s.len(),
{
    if n == 0 || s.len() == 0 {
        0
    } else if s[0] == 0x0a {
        1 + line_start(s.drop_first(), (n - 1) as nat)
    } else {
        1 + line_start(s.drop_first(), n)
    }
}

/// The first `n` lines of `s`.
pub open spec fn take_lines(s: Seq<u8>, n: nat) -> Seq<u8> {
    s.take(line_start(s, n) as int)
}

/// What is left of `s` after its first `n` lines.
pub open spec fn skip_lines(s: Seq<u8>, n: nat) -> Seq<u8> {
    s.skip(line_start(s, n) as int)
}

/// The first `n` lines end inside the content.
pub proof fn lemma_line_start_bound(s: Seq<u8>, n: nat)
    ensures
        line_start(s, n) <= s.len(),
    decreases s.len(),
{
    if n == 0 || s.len() == 0 {
    } else if s[0] == 0x0a {
        lemma_line_start_bound(s.drop_first(), (n - 1) as nat);
    } else {
        lemma_line_start_bound(s.drop_first(), n);
    }
}

/// The first `n` lines and what is left after them make up the content.
pub proof fn lemma_lines_partition(s: Seq<u8>, n: nat)
    ensures
        take_lines(s, n) + skip_lines(s, n) == s,
{
    lemma_line_start_bound(s, n);
}

/// Skipping `n` lines leaves `n` fewer, as long as there are that many.
pub proof fn lemma_skip_lines_leaves_the_rest(s: Seq<u8>, n: nat)
    requires
        n <= line_count(s),
    ensures
        line_count(skip_lines(s, n)) == line_count(s) - n,
    decreases s.len(),
{
    lemma_line_start_bound(s, n);
    if n == 0 || s.len() == 0 {
        assert(s.skip(0) == s);
    } else {
        let rest = s.drop_first();
        let m = if s[0] == 0x0a {
            (n - 1) as nat
        } else {
            n
        };
        lemma_line_start_bound(rest, m);
        assert(s.skip(1 + line_start(rest, m) as int) == rest.skip(line_start(rest, m) as int));
        if rest.len() > 0 {
            assert(rest.last() == s.last());
            lemma_skip_lines_leaves_the_rest(rest, m);
        }
    }
}

/// Taking `n` lines yields `n` lines, as long as there are that many.
pub proof fn lemma_take_lines_count(s: Seq<u8>, n: nat)
    requires
        n <= line_count(s),
    ensures
        line_count(take_lines(s, n)) == n,
    decreases s.len(),
{
    lemma_line_start_bound(s, n);
    if n > 0 && s.len() > 0 {
        let rest = s.drop_first();
        let m = if s[0] == 0x0a {
            (n - 1) as nat
        } else {
            n
        };
        lemma_line_start_bound(rest, m);
        let head = s.take(1 + line_start(rest, m) as int);
        assert(head.drop_first() == rest.take(line_start(rest, m) as int));
        if rest.len() > 0 {
            assert(rest.last() == s.last());
            lemma_take_lines_count(rest, m);
            if line_start(rest, m) > 0 {
                assert(head.last() == head.drop_first().last());
            }
        }
    }
}

/// Counts the lines of `content`.
pub fn count_lines(content: &[u8]) -> (lines: u64)
    ensures
        lines == line_count(content@),
{
    let n: usize = content.len();
    let mut lines: u64 = 0;
    let mut i: usize = 0;
    assert(content@.skip(0) == content@);
    while i < n
        invariant
            n == content@.len(),
            0 <= i <= n,
            lines + (if i > 0 && content@[i - 1] != 0x0a { 1int } else { 0int }) <= i,
            lines + newlines(content@.skip(i as int)) == newlines(content@),
        decreases n - i,
    {
        assert(content@.skip(i as int).drop_first() == content@.skip(i + 1));
        if content[i] == 0x0a {
            lines = lines + 1;
        }
        i = i + 1;
    }
    if n > 0 && content[n - 1] != 0x0a {
        lines = lines + 1;
    }
    lines
}

/// Scans forward over the first `n` lines of `content` and reports where
/// they end.
pub fn find_line_start(content: &[u8], n: u64) -> (at: usize)
    ensures
        at == line_start(content@, n as nat),
        at <= content@.len(),
{
    let len: usize = content.len();
    let mut skipped: u64 = 0;
    let mut i: usize = 0;
    assert(content@.skip(0) == content@);
    while i < len && skipped < n
        invariant
            len == content@.len(),
            0 <= i <= len,
            skipped <= n,
            line_start(content@, n as nat) == i + line_start(
                content@.skip(i as int),
                (n - skipped) as nat,
            ),
        decreases len - i,
    {
        assert(content@.skip(i as int).drop_first() == content@.skip(i + 1));
        if content[i] == 0x0a {
            skipped = skipped + 1;
        }
        i = i + 1;
    }
    i
}

} // verus!
