//! Reading dotenv files: which `KEY=value` settings a file's text holds. Reading the file
//! and setting the variables is the caller's.

use vstd::prelude::*;

use crate::text;

verus! {

/// The pieces of `s` between `\n` separators, as `str::split('\n')` gives them (always at
/// least one piece).
pub open spec fn lines_of(s: Seq<char>) -> Seq<Seq<char>>
    decreases s.len(),
{
    if s.len() == 0 {
        seq![Seq::empty()]
    } else {
        let init = lines_of(s.drop_last());
        if s.last() == '\n' {
            init.push(Seq::empty())
        } else {
            init.update(init.len() - 1, init.last().push(s.last()))
        }
    }
}

/// `s` without its leading whitespace.
pub open spec fn trim_start(s: Seq<char>) -> Seq<char>
    decreases s.len(),
{
    if s.len() > 0 && text::whitespace(s[0]) {
        trim_start(s.drop_first())
    } else {
        s
    }
}

/// `s` without its trailing whitespace.
pub open spec fn trim_end(s: Seq<char>) -> Seq<char>
    decreases s.len(),
{
    if s.len() > 0 && text::whitespace(s.last()) {
        trim_end(s.drop_last())
    } else {
        s
    }
}

/// `s` without leading and trailing whitespace, as `str::trim` leaves it.
pub open spec fn trimmed(s: Seq<char>) -> Seq<char> {
    trim_end(trim_start(s))
}

/// The position of the first `c` in `s`.
pub open spec fn first_index(s: Seq<char>, c: char) -> Option<nat>
    decreases s.len(),
{
    if s.len() == 0 {
        None
    } else if s[0] == c {
        Some(0)
    } else {
        match first_index(s.drop_first(), c) {
            Some(k) => Some(k + 1),
            None => None,
        }
    }
}

/// The setting one line holds: none for a blank line or a `#` comment; otherwise the
/// trimmed text before and after the first `=`, when there is one and the key is not
/// empty.
pub open spec fn dotenv_entry(line: Seq<char>) -> Option<(Seq<char>, Seq<char>)> {
    let t = trimmed(line);
    if t.len() == 0 || t[0] == '#' {
        None
    } else {
        match first_index(t, '=') {
            Some(i) => {
                let key = trimmed(t.take(i as int));
                if key.len() == 0 {
                    None
                } else {
                    Some((key, trimmed(t.skip(i as int + 1))))
                }
            },
            None => None,
        }
    }
}

/// The settings a sequence of lines holds, in order.
pub open spec fn dotenv_entries(lines: Seq<Seq<char>>) -> Seq<(Seq<char>, Seq<char>)>
    decreases lines.len(),
{
    if lines.len() == 0 {
        Seq::empty()
    } else {
        let rest = dotenv_entries(lines.drop_last());
        match dotenv_entry(lines.last()) {
            Some(p) => rest.push(p),
            None => rest,
        }
    }
}

/// The settings a dotenv file's text holds, in order (a later one for the same key
/// overrides an earlier one when they are applied in turn). Lines are read as
/// `str::lines` reads them: a `\r` before the `\n` is whitespace that `trim` removes.
pub open spec fn dotenv_settings(content: Seq<char>) -> Seq<(Seq<char>, Seq<char>)> {
    dotenv_entries(lines_of(content))
}

/// The first `c` in `s` is at `i` when no earlier character is `c` and `s[i]` is; there
/// is none when no character is.
proof fn lemma_first_index(s: Seq<char>, c: char, i: int)
    requires
        0 <= i <= s.len(),
        forall|j: int| 0 <= j < i ==> s[j] != c,
        i < s.len() ==> s[i] == c,
    ensures
        first_index(s, c) == (if i < s.len() { Some(i as nat) } else { None::<nat> }),
    decreases i,
{
    if i > 0 {
        assert(s[0] != c);
        let t = s.drop_first();
        assert forall|j: int| 0 <= j < i - 1 implies t[j] != c by {
            assert(t[j] == s[j + 1]);
        }
        if i < s.len() {
            assert(t[i - 1] == s[i]);
        }
        lemma_first_index(t, c, i - 1);
    }
}

proof fn lemma_lines_nonempty(s: Seq<char>)
    ensures
        lines_of(s).len() >= 1,
    decreases s.len(),
{
    if s.len() > 0 {
        lemma_lines_nonempty(s.drop_last());
    }
}

/// Joining two texts with a newline joins their lines.
proof fn lemma_lines_join(a: Seq<char>, b: Seq<char>)
    ensures
        lines_of(a + seq!['\n'] + b) == lines_of(a) + lines_of(b),
    decreases b.len(),
{
    let s = a + seq!['\n'] + b;
    if b.len() == 0 {
        assert(s == a + seq!['\n']);
        assert(s.drop_last() =~= a);
        assert(lines_of(a).push(Seq::empty()) =~= lines_of(a) + lines_of(b));
    } else {
        let b2 = b.drop_last();
        lemma_lines_join(a, b2);
        lemma_lines_nonempty(b2);
        lemma_lines_nonempty(a);
        assert(s.drop_last() =~= a + seq!['\n'] + b2);
        assert(s.last() == b.last());
        let la = lines_of(a);
        let lb2 = lines_of(b2);
        let init = la + lb2;
        if b.last() == '\n' {
            assert(init.push(Seq::empty()) =~= la + lb2.push(Seq::empty()));
        } else {
            assert(init.last() == lb2.last());
            assert(init.update(init.len() - 1, init.last().push(b.last()))
                =~= la + lb2.update(lb2.len() - 1, lb2.last().push(b.last())));
        }
    }
}

/// The settings of two runs of lines, one after the other.
proof fn lemma_entries_concat(x: Seq<Seq<char>>, y: Seq<Seq<char>>)
    ensures
        dotenv_entries(x + y) == dotenv_entries(x) + dotenv_entries(y),
    decreases y.len(),
{
    if y.len() == 0 {
        assert(x + y =~= x);
        assert(dotenv_entries(x) + dotenv_entries(y) =~= dotenv_entries(x));
    } else {
        lemma_entries_concat(x, y.drop_last());
        assert((x + y).drop_last() =~= x + y.drop_last());
        assert((x + y).last() == y.last());
        match dotenv_entry(y.last()) {
            Some(p) => {
                assert((dotenv_entries(x) + dotenv_entries(y.drop_last())).push(p)
                    =~= dotenv_entries(x) + dotenv_entries(y.drop_last()).push(p));
            },
            None => {},
        }
    }
}

/// Reading two dotenv texts joined by a newline gives the settings of the first followed by
/// those of the second: lines are read one at a time, so applying the joined settings in
/// order has each later setting override an earlier one for the same key.
pub proof fn law_settings_concat(a: Seq<char>, b: Seq<char>)
    ensures
        dotenv_settings(a + seq!['\n'] + b) == dotenv_settings(a) + dotenv_settings(b),
{
    lemma_lines_join(a, b);
    lemma_entries_concat(lines_of(a), lines_of(b));
}

/// The characters of `cs` from `lo` to `hi`.
fn copy_range(cs: &Vec<char>, lo: usize, hi: usize) -> (r: Vec<char>)
    requires
        lo <= hi <= cs@.len(),
    ensures
        r@ == cs@.subrange(lo as int, hi as int),
{
    let mut out: Vec<char> = Vec::new();
    let mut i: usize = lo;
    while i < hi
        invariant
            lo <= i <= hi,
            hi <= cs@.len(),
            out@ == cs@.subrange(lo as int, i as int),
        decreases hi - i,
    {
        out.push(cs[i]);
        i = i + 1;
        assert(out@ =~= cs@.subrange(lo as int, i as int));
    }
    out
}

/// `cs` trimmed (see `trimmed`).
fn trim(cs: &Vec<char>) -> (r: Vec<char>)
    ensures
        r@ == trimmed(cs@),
{
    let n = cs.len();
    let mut lo: usize = 0;
    assert(cs@.subrange(0, n as int) =~= cs@);
    while lo < n && text::is_whitespace(cs[lo])
        invariant
            lo <= n,
            n == cs@.len(),
            trim_start(cs@) == trim_start(cs@.subrange(lo as int, n as int)),
        decreases n - lo,
    {
        assert(cs@.subrange(lo as int + 1, n as int) =~= cs@.subrange(lo as int, n as int).drop_first());
        lo = lo + 1;
    }
    let ghost t = cs@.subrange(lo as int, n as int);
    assert(trim_start(cs@) == t);
    let mut hi: usize = n;
    while hi > lo && text::is_whitespace(cs[hi - 1])
        invariant
            lo <= hi <= n,
            n == cs@.len(),
            trim_end(t) == trim_end(cs@.subrange(lo as int, hi as int)),
        decreases hi,
    {
        assert(cs@.subrange(lo as int, hi as int - 1) =~= cs@.subrange(lo as int, hi as int).drop_last());
        hi = hi - 1;
    }
    copy_range(cs, lo, hi)
}

/// The setting one line holds (see `dotenv_entry`).
fn parse_line(line: &Vec<char>) -> (r: Option<(String, String)>)
    ensures
        match dotenv_entry(line@) {
            Some((k, v)) => r matches Some((a, b)) && a@ == k && b@ == v,
            None => r is None,
        },
{
    let t = trim(line);
    if t.len() == 0 || t[0] == '#' {
        return None;
    }
    let mut i: usize = 0;
    while i < t.len() && t[i] != '='
        invariant
            i <= t@.len(),
            forall|j: int| 0 <= j < i ==> t@[j] != '=',
        decreases t.len() - i,
    {
        i = i + 1;
    }
    proof { lemma_first_index(t@, '=', i as int); }
    if i == t.len() {
        return None;
    }
    let key = trim(&copy_range(&t, 0, i));
    assert(t@.subrange(0, i as int) =~= t@.take(i as int));
    if key.len() == 0 {
        return None;
    }
    let value = trim(&copy_range(&t, i + 1, t.len()));
    assert(t@.subrange(i as int + 1, t@.len() as int) =~= t@.skip(i as int + 1));
    Some((text::string_of(&key), text::string_of(&value)))
}

/// The views of settings.
pub open spec fn pair_views(s: Seq<(String, String)>) -> Seq<(Seq<char>, Seq<char>)> {
    s.map_values(|p: (String, String)| (p.0@, p.1@))
}

/// Parse a dotenv file's text into its `KEY=value` settings, in order (see
/// `dotenv_settings`): blank lines, `#` comments and lines without `=` or with an empty
/// key are skipped; keys and values are trimmed.
pub fn parse_dotenv(content: &str) -> (r: Vec<(String, String)>)
    ensures
        pair_views(r@) == dotenv_settings(content@),
{
    let cs = text::chars_of(content);
    let mut out: Vec<(String, String)> = Vec::new();
    let mut cur: Vec<char> = Vec::new();
    let mut i: usize = 0;
    while i < cs.len()
        invariant
            i <= cs@.len(),
            cs@ == content@,
            lines_of(cs@.take(i as int)).len() >= 1,
            cur@ == lines_of(cs@.take(i as int)).last(),
            pair_views(out@) == dotenv_entries(lines_of(cs@.take(i as int)).drop_last()),
        decreases cs.len() - i,
    {
        let ghost before = cs@.take(i as int);
        let ghost ls = lines_of(before);
        assert(cs@.take(i as int + 1).drop_last() =~= before);
        assert(cs@.take(i as int + 1).last() == cs@[i as int]);
        let c = cs[i];
        if c == '\n' {
            let ghost old_out = out@;
            match parse_line(&cur) {
                Some(p) => out.push(p),
                None => {},
            }
            assert(ls.drop_last().push(ls.last()) =~= ls);
            assert(lines_of(cs@.take(i as int + 1)) == ls.push(Seq::empty()));
            assert(lines_of(cs@.take(i as int + 1)).drop_last() =~= ls);
            assert(pair_views(out@) =~= dotenv_entries(ls));
            cur = Vec::new();
        } else {
            cur.push(c);
            assert(lines_of(cs@.take(i as int + 1)) == ls.update(ls.len() - 1, ls.last().push(c)));
            assert(lines_of(cs@.take(i as int + 1)).drop_last() =~= ls.drop_last());
        }
        i = i + 1;
    }
    assert(cs@.take(cs@.len() as int) =~= cs@);
    let ghost ls = lines_of(cs@);
    match parse_line(&cur) {
        Some(p) => out.push(p),
        None => {},
    }
    assert(ls.drop_last().push(ls.last()) =~= ls);
    assert(pair_views(out@) =~= dotenv_entries(ls));
    out
}

} // verus!
