//! Parsing of modifier literals.
//!
//! A literal has the grammar `name` or `name@arg1,arg2,...,argN`: the text
//! before the first `@` is the guard function's name, taken verbatim; the text
//! after it is split on every comma, and each piece is trimmed of surrounding
//! whitespace and kept as a raw argument fragment, in order.

use vstd::prelude::*;

verus! {

/// The characters stripped from both ends of an argument fragment.
pub open spec fn is_space(c: char) -> bool {
    c == ' ' || c == '\t' || c == '\n' || c == '\r'
}

/// Index of the first occurrence of `c` in `s`, or `s.len()` if `c` is absent.
pub open spec fn find_char(s: Seq<char>, c: char) -> int
    decreases s.len(),
{
    if s.len() == 0 {
        0
    } else if s[0] == c {
        0
    } else {
        1 + find_char(s.drop_first(), c)
    }
}

pub proof fn lemma_find_char(s: Seq<char>, c: char)
    ensures
        0 <= find_char(s, c) <= s.len(),
        find_char(s, c) < s.len() ==> s[find_char(s, c)] == c,
        forall|j: int| 0 <= j < find_char(s, c) ==> s[j] != c,
    decreases s.len(),
{
    if s.len() == 0 {
    } else if s[0] == c {
    } else {
        lemma_find_char(s.drop_first(), c);
        assert forall|j: int| 0 <= j < find_char(s, c) implies s[j] != c by {
            if j > 0 {
                assert(s.drop_first()[j - 1] == s[j]);
            }
        }
    }
}

/// `find_char` returns `i` exactly when no earlier position holds `c` and
/// position `i` (if within the sequence) does.
pub proof fn lemma_find_char_at(s: Seq<char>, c: char, i: int)
    requires
        0 <= i <= s.len(),
        forall|j: int| 0 <= j < i ==> s[j] != c,
        i < s.len() ==> s[i] == c,
    ensures
        find_char(s, c) == i,
    decreases s.len(),
{
    if s.len() == 0 {
    } else if s[0] == c {
        assert(i == 0);
    } else {
        assert(i >= 1);
        assert forall|j: int| 0 <= j < i - 1 implies s.drop_first()[j] != c by {
            assert(s.drop_first()[j] == s[j + 1]);
        }
        if i - 1 < s.drop_first().len() {
            assert(s.drop_first()[i - 1] == s[i]);
        }
        lemma_find_char_at(s.drop_first(), c, i - 1);
    }
}

/// Split `s` at every occurrence of `c`.  The result always holds at least
/// one piece; `n` occurrences of `c` give `n + 1` pieces.
pub open spec fn split_char(s: Seq<char>, c: char) -> Seq<Seq<char>>
    decreases s.len(),
{
    if s.len() == 0 {
        seq![Seq::<char>::empty()]
    } else if s[0] == c {
        seq![Seq::<char>::empty()] + split_char(s.drop_first(), c)
    } else {
        let rest = split_char(s.drop_first(), c);
        seq![seq![s[0]] + rest[0]] + rest.drop_first()
    }
}

pub proof fn lemma_split_char_len(s: Seq<char>, c: char)
    ensures
        split_char(s, c).len() >= 1,
    decreases s.len(),
{
    if s.len() == 0 {
    } else {
        lemma_split_char_len(s.drop_first(), c);
    }
}

/// Unrolling of `split_char` at the first occurrence of `c`: the first piece
/// is everything before it, and the remaining pieces split the remainder.
pub proof fn lemma_split_char_step(s: Seq<char>, c: char)
    ensures
        find_char(s, c) == s.len() ==> split_char(s, c) == seq![s],
        find_char(s, c) < s.len() ==> split_char(s, c) == seq![
            s.take(find_char(s, c)),
        ] + split_char(s.skip(find_char(s, c) + 1), c),
    decreases s.len(),
{
    lemma_find_char(s, c);
    if s.len() == 0 {
        assert(split_char(s, c) =~~= seq![s]);
    } else if s[0] == c {
        assert(s.take(0) =~= Seq::<char>::empty());
        assert(s.skip(1) =~= s.drop_first());
        assert(split_char(s, c) =~~= seq![s.take(0)] + split_char(s.skip(1), c));
    } else {
        let k = find_char(s.drop_first(), c);
        lemma_find_char(s.drop_first(), c);
        lemma_split_char_step(s.drop_first(), c);
        lemma_split_char_len(s.drop_first(), c);
        let rest = split_char(s.drop_first(), c);
        if k == s.drop_first().len() {
            assert(find_char(s, c) == s.len());
            assert(rest == seq![s.drop_first()]);
            assert(seq![s[0]] + s.drop_first() =~= s);
            assert(split_char(s, c) =~~= seq![s]);
        } else {
            assert(find_char(s, c) == 1 + k < s.len());
            assert(rest == seq![s.drop_first().take(k)] + split_char(s.drop_first().skip(k + 1), c));
            assert(rest[0] == s.drop_first().take(k));
            assert(rest.drop_first() =~~= split_char(s.drop_first().skip(k + 1), c));
            assert(seq![s[0]] + s.drop_first().take(k) =~= s.take(1 + k));
            assert(s.drop_first().skip(k + 1) =~= s.skip(1 + k + 1));
            assert(split_char(s, c) =~~= seq![s.take(1 + k)] + split_char(s.skip(1 + k + 1), c));
        }
    }
}

/// `s` with every leading whitespace character removed.
pub open spec fn trim_left(s: Seq<char>) -> Seq<char>
    decreases s.len(),
{
    if s.len() == 0 {
        s
    } else if is_space(s[0]) {
        trim_left(s.drop_first())
    } else {
        s
    }
}

/// `s` with every trailing whitespace character removed.
pub open spec fn trim_right(s: Seq<char>) -> Seq<char>
    decreases s.len(),
{
    if s.len() == 0 {
        s
    } else if is_space(s.last()) {
        trim_right(s.drop_last())
    } else {
        s
    }
}

/// `s` with surrounding whitespace removed.
pub open spec fn trim(s: Seq<char>) -> Seq<char> {
    trim_right(trim_left(s))
}

/// The views of a sequence of strings.
pub open spec fn views_of(ss: Seq<String>) -> Seq<Seq<char>> {
    ss.map_values(|s: String| s@)
}

/// The pieces of `s` between top-level commas, each trimmed.
pub open spec fn trimmed_pieces(s: Seq<char>) -> Seq<Seq<char>> {
    split_char(s, ',').map_values(|p: Seq<char>| trim(p))
}

/// One requested guard invocation: the guard function's name and the raw
/// argument fragments to pass it, in declaration order.
pub struct ModifierSpec {
    pub name: String,
    pub arguments: Vec<String>,
}

/// The mathematical value of a `ModifierSpec`.
#[verifier::ext_equal]
pub struct ModifierSpecView {
    pub name: Seq<char>,
    pub arguments: Seq<Seq<char>>,
}

impl View for ModifierSpec {
    type V = ModifierSpecView;

    open spec fn view(&self) -> ModifierSpecView {
        ModifierSpecView { name: self.name@, arguments: views_of(self.arguments@) }
    }
}

/// The name in a literal: everything before the first `@`, or the whole
/// literal when it has none.
pub open spec fn name_of(s: Seq<char>) -> Seq<char> {
    s.take(find_char(s, '@'))
}

/// The argument fragments in a literal: empty when it has no `@`, else the
/// text after the first `@` split on commas, each piece trimmed.
pub open spec fn arguments_of(s: Seq<char>) -> Seq<Seq<char>> {
    if find_char(s, '@') == s.len() {
        Seq::empty()
    } else {
        trimmed_pieces(s.skip(find_char(s, '@') + 1))
    }
}

/// The parse of one modifier literal.
pub open spec fn modifier_of(s: Seq<char>) -> ModifierSpecView {
    ModifierSpecView { name: name_of(s), arguments: arguments_of(s) }
}

/// A literal without `@` parses to its own text as the name and no arguments.
pub proof fn lemma_literal_without_at(s: Seq<char>)
    requires
        forall|i: int| 0 <= i < s.len() ==> s[i] != '@',
    ensures
        modifier_of(s).name == s,
        modifier_of(s).arguments == Seq::<Seq<char>>::empty(),
{
    lemma_find_char_at(s, '@', s.len() as int);
    assert(s.take(s.len() as int) =~= s);
}

fn is_space_char(c: char) -> (b: bool)
    ensures
        b == is_space(c),
{
    c == ' ' || c == '\t' || c == '\n' || c == '\r'
}

/// Index of the first occurrence of `c` in `s`, or the character length of
/// `s` if `c` is absent.
fn find_first(s: &str, c: char) -> (i: usize)
    ensures
        i == find_char(s@, c),
        i <= s@.len(),
{
    let n = s.unicode_len();
    let mut i: usize = 0;
    while i < n
        invariant
            i <= n,
            n == s@.len(),
            forall|j: int| 0 <= j < i ==> s@[j] != c,
        decreases n - i,
    {
        if s.get_char(i) == c {
            proof {
                lemma_find_char_at(s@, c, i as int);
            }
            return i;
        }
        i += 1;
    }
    proof {
        lemma_find_char_at(s@, c, n as int);
    }
    i
}

/// First position at or after `from` (up to `to`) whose character is not
/// whitespace; trimming the left of `s[from..to]` starts there.
fn skip_spaces_left(s: &str, from: usize, to: usize) -> (a: usize)
    requires
        from <= to <= s@.len(),
    ensures
        from <= a <= to,
        trim_left(s@.subrange(from as int, to as int)) == s@.subrange(a as int, to as int),
    decreases to - from,
{
    if from < to {
        if is_space_char(s.get_char(from)) {
            proof {
                assert(s@.subrange(from as int, to as int).drop_first() =~= s@.subrange(
                    from as int + 1,
                    to as int,
                ));
            }
            return skip_spaces_left(s, from + 1, to);
        }
    }
    from
}

/// Last position before `to` (down to `from`) whose character is not
/// whitespace, plus one; trimming the right of `s[from..to]` ends there.
fn skip_spaces_right(s: &str, from: usize, to: usize) -> (b: usize)
    requires
        from <= to <= s@.len(),
    ensures
        from <= b <= to,
        trim_right(s@.subrange(from as int, to as int)) == s@.subrange(from as int, b as int),
    decreases to - from,
{
    if from < to {
        if is_space_char(s.get_char(to - 1)) {
            proof {
                assert(s@.subrange(from as int, to as int).drop_last() =~= s@.subrange(
                    from as int,
                    to as int - 1,
                ));
            }
            return skip_spaces_right(s, from, to - 1);
        }
    }
    to
}

/// The substring `s[from..to]` with surrounding whitespace removed.
fn trim_substring(s: &str, from: usize, to: usize) -> (r: String)
    requires
        from <= to <= s@.len(),
    ensures
        r@ == trim(s@.subrange(from as int, to as int)),
{
    let a = skip_spaces_left(s, from, to);
    let b = skip_spaces_right(s, a, to);
    let r = s.substring_char(a, b).to_owned();
    r
}

/// The argument fragments of `rest`: its pieces between commas, trimmed,
/// in order.
fn parse_arguments(rest: &str) -> (args: Vec<String>)
    ensures
        views_of(args@) == trimmed_pieces(rest@),
{
    let n = rest.unicode_len();
    let mut args: Vec<String> = Vec::new();
    let mut start: usize = 0;
    let mut i: usize = 0;
    proof {
        assert(rest@.skip(0) =~= rest@);
        assert(views_of(args@) + trimmed_pieces(rest@) =~~= trimmed_pieces(rest@));
    }
    while i < n
        invariant
            start <= i <= n,
            n == rest@.len(),
            forall|j: int| start <= j < i ==> rest@[j] != ',',
            views_of(args@) + trimmed_pieces(rest@.skip(start as int)) == trimmed_pieces(rest@),
        decreases n - i,
    {
        if rest.get_char(i) == ',' {
            let piece = trim_substring(rest, start, i);
            proof {
                let suf = rest@.skip(start as int);
                assert forall|j: int| 0 <= j < i - start implies suf[j] != ',' by {
                    assert(suf[j] == rest@[start + j]);
                }
                assert(suf[i - start] == rest@[i as int]);
                lemma_find_char_at(suf, ',', i - start);
                lemma_split_char_step(suf, ',');
                assert(suf.take(i - start) =~= rest@.subrange(start as int, i as int));
                assert(suf.skip(i - start + 1) =~= rest@.skip(i as int + 1));
                assert(trimmed_pieces(suf) =~~= seq![piece@] + trimmed_pieces(
                    rest@.skip(i as int + 1),
                ));
                assert(views_of(args@.push(piece)) =~~= views_of(args@) + seq![piece@]);
                assert(views_of(args@.push(piece)) + trimmed_pieces(rest@.skip(i as int + 1))
                    =~~= views_of(args@) + trimmed_pieces(suf));
            }
            args.push(piece);
            i += 1;
            start = i;
        } else {
            i += 1;
        }
    }
    let piece = trim_substring(rest, start, n);
    proof {
        let suf = rest@.skip(start as int);
        assert forall|j: int| 0 <= j < suf.len() implies suf[j] != ',' by {
            assert(suf[j] == rest@[start + j]);
        }
        lemma_find_char_at(suf, ',', suf.len() as int);
        lemma_split_char_step(suf, ',');
        assert(suf.take(suf.len() as int) =~= rest@.subrange(start as int, n as int));
        assert(trimmed_pieces(suf) =~~= seq![piece@]);
        assert(views_of(args@.push(piece)) =~~= views_of(args@) + seq![piece@]);
    }
    args.push(piece);
    args
}

/// Parse one modifier literal into its name and argument fragments.
pub fn parse_modifier(lit: &str) -> (m: ModifierSpec)
    ensures
        m@ == modifier_of(lit@),
{
    let n = lit.unicode_len();
    let at = find_first(lit, '@');
    let name = lit.substring_char(0, at).to_owned();
    proof {
        assert(lit@.subrange(0, at as int) =~= lit@.take(find_char(lit@, '@')));
    }
    if at == n {
        let m = ModifierSpec { name, arguments: Vec::new() };
        proof {
            assert(views_of(m.arguments@) =~= Seq::<Seq<char>>::empty());
            assert(m@ =~~= modifier_of(lit@));
        }
        m
    } else {
        let rest = lit.substring_char(at + 1, n);
        proof {
            assert(rest@ =~= lit@.skip(find_char(lit@, '@') + 1));
        }
        let arguments = parse_arguments(rest);
        let m = ModifierSpec { name, arguments };
        proof {
            assert(m@ =~~= modifier_of(lit@));
        }
        m
    }
}

/// Parse every literal of an attribute's argument list, in order.
pub fn parse_modifier_list(literals: &Vec<String>) -> (ms: Vec<ModifierSpec>)
    ensures
        ms@.len() == literals@.len(),
        forall|i: int| 0 <= i < literals@.len() ==> #[trigger] ms@[i]@ == modifier_of(
            literals@[i]@,
        ),
{
    let mut ms: Vec<ModifierSpec> = Vec::new();
    let mut k: usize = 0;
    while k < literals.len()
        invariant
            k <= literals@.len(),
            ms@.len() == k,
            forall|i: int| 0 <= i < k ==> #[trigger] ms@[i]@ == modifier_of(literals@[i]@),
        decreases literals@.len() - k,
    {
        let m = parse_modifier(literals[k].as_str());
        ms.push(m);
        k += 1;
    }
    ms
}

} // verus!
