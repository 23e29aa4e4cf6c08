//! The domain pool: the names that queries are made for.
//!
//! The pool is filled once, from the lines of a domain list, and only read
//! afterwards. Whether a name has the syntax of a domain name is decided by
//! the `addr` crate; a random entry is picked by the `rand` crate.

use vstd::prelude::*;

verus! {

/// The characters that count as white space at the ends of a line: the ones
/// with the Unicode property `White_Space`.
pub open spec fn is_space(c: char) -> bool {
    let u = c as u32;
    ||| 0x09 <= u <= 0x0D
    ||| u == 0x20
    ||| u == 0x85
    ||| u == 0xA0
    ||| u == 0x1680
    ||| 0x2000 <= u <= 0x200A
    ||| u == 0x2028
    ||| u == 0x2029
    ||| u == 0x202F
    ||| u == 0x205F
    ||| u == 0x3000
}

/// Number of white-space characters that `s` starts with.
pub open spec fn leading_spaces(s: Seq<char>) -> nat
    decreases s.len(),
{
    if s.len() > 0 && is_space(s.first()) {
        1 + leading_spaces(s.drop_first())
    } else {
        0
    }
}

/// Number of white-space characters that `s` ends with.
pub open spec fn trailing_spaces(s: Seq<char>) -> nat
    decreases s.len(),
{
    if s.len() > 0 && is_space(s.last()) {
        1 + trailing_spaces(s.drop_last())
    } else {
        0
    }
}

/// `s` without the white space at its start and at its end.
pub open spec fn trimmed(s: Seq<char>) -> Seq<char> {
    let rest = s.skip(leading_spaces(s) as int);
    rest.take(rest.len() - trailing_spaces(rest))
}

/// Whether the syntax of `name` is that of a domain name, as
/// `addr::parse_domain_name` judges it.
pub uninterp spec fn is_domain_name(name: Seq<char>) -> bool;

/// A line of a domain list yields an entry of the pool where, trimmed, it is
/// not empty and is a domain name.
pub open spec fn is_entry(name: Seq<char>) -> bool {
    name.len() > 0 && is_domain_name(name)
}

/// The pool that a domain list yields: its lines, trimmed, without those
/// that are blank or are no domain names, in the order of the list.
pub open spec fn pool_of(lines: Seq<Seq<char>>) -> Seq<Seq<char>> {
    lines.map_values(|line: Seq<char>| trimmed(line)).filter(|name: Seq<char>| is_entry(name))
}

/// The white space at either end of a text never outnumbers its characters.
pub proof fn lemma_spaces_bounded(s: Seq<char>)
    ensures
        leading_spaces(s) <= s.len(),
        trailing_spaces(s) <= s.len(),
    decreases s.len(),
{
    if s.len() > 0 {
        lemma_spaces_bounded(s.drop_first());
        lemma_spaces_bounded(s.drop_last());
    }
}

/// A trimmed text neither starts nor ends with white space, and trimming it
/// again changes nothing.
pub proof fn lemma_trimmed_is_bare(s: Seq<char>)
    ensures
        trimmed(s).len() > 0 ==> !is_space(trimmed(s).first()) && !is_space(trimmed(s).last()),
        trimmed(trimmed(s)) == trimmed(s),
{
    lemma_leading_stop(s);
    let rest = s.skip(leading_spaces(s) as int);
    lemma_trailing_stop(rest);
    lemma_spaces_bounded(s);
    lemma_spaces_bounded(rest);
    let t = trimmed(s);
    if t.len() > 0 {
        assert(t.first() == rest.first());
        assert(t.last() == rest[rest.len() - trailing_spaces(rest) - 1]);
        assert(leading_spaces(t) == 0);
        assert(trailing_spaces(t) == 0);
        assert(t.skip(0) =~= t);
        assert(t.take(t.len() as int) =~= t);
    } else {
        assert(t.skip(0) =~= t);
        assert(t.take(0) =~= t);
    }
}

/// Behind the leading white space stands a character that is none, or
/// nothing.
proof fn lemma_leading_stop(s: Seq<char>)
    ensures
        leading_spaces(s) <= s.len(),
        leading_spaces(s) < s.len() ==> !is_space(s[leading_spaces(s) as int]),
    decreases s.len(),
{
    if s.len() > 0 && is_space(s.first()) {
        lemma_leading_stop(s.drop_first());
    }
}

/// Before the trailing white space stands a character that is none, or
/// nothing.
proof fn lemma_trailing_stop(s: Seq<char>)
    ensures
        trailing_spaces(s) <= s.len(),
        trailing_spaces(s) < s.len() ==> !is_space(s[s.len() - trailing_spaces(s) - 1]),
    decreases s.len(),
{
    if s.len() > 0 && is_space(s.last()) {
        lemma_trailing_stop(s.drop_last());
    }
}

/// Tells whether `c` is white space.
pub fn is_space_char(c: char) -> (b: bool)
    ensures
        b == is_space(c),
{
    let u: u32 = c as u32;
    (0x09 <= u && u <= 0x0D) || u == 0x20 || u == 0x85 || u == 0xA0 || u == 0x1680 || (0x2000 <= u
        && u <= 0x200A) || u == 0x2028 || u == 0x2029 || u == 0x202F || u == 0x205F || u == 0x3000
}

/// The line without the white space at its ends.
///
/// Characters are looked up by position, which costs time in proportion to
/// the position: this is meant for lines, not for whole files.
pub fn trim(line: &str) -> (r: &str)
    ensures
        r@ == trimmed(line@),
{
    let n: usize = line.unicode_len();
    let mut start: usize = 0;
    assert(line@.skip(0) =~= line@);
    while start < n && is_space_char(line.get_char(start))
        invariant
            n == line@.len(),
            start <= n,
            leading_spaces(line@) == start + leading_spaces(line@.skip(start as int)),
        decreases n - start,
    {
        assert(line@.skip(start as int).drop_first() =~= line@.skip(start as int + 1));
        start += 1;
    }
    let ghost rest = line@.skip(start as int);
    let mut end: usize = n;
    assert(rest.take(rest.len() as int) =~= rest);
    while end > start && is_space_char(line.get_char(end - 1))
        invariant
            n == line@.len(),
            start <= end <= n,
            rest == line@.skip(start as int),
            trailing_spaces(rest) == (n - end) + trailing_spaces(rest.take(end - start)),
        decreases end,
    {
        assert(rest.take(end - start).drop_last() =~= rest.take(end - start - 1));
        end -= 1;
    }
    assert(line@.subrange(start as int, end as int) =~= rest.take(end - start));
    line.substring_char(start, end)
}

/// The generator of random numbers that `rand` keeps for each thread,
/// carried through as it is.
#[verifier::external_type_specification]
#[verifier::external_body]
pub struct ExThreadRng(rand::rngs::ThreadRng);

/// `addr::parse_domain_name`, of which only the verdict is kept: whether the
/// name was accepted.
#[verifier::external_body]
fn valid_domain(name: &str) -> (ok: bool)
    ensures
        ok == is_domain_name(name@),
{
    addr::parse_domain_name(name).is_ok()
}

/// `rand::seq::SliceRandom::choose` on the names: one of them, whichever the
/// generator picks, and `None` only where there is none to pick.
#[verifier::external_body]
fn choose_name<'a>(names: &'a Vec<String>, rng: &mut rand::rngs::ThreadRng) -> (r: Option<
    &'a String,
>)
    ensures
        r is None <==> names@.len() == 0,
        r matches Some(name) ==> names@.contains(*name),
{
    rand::seq::SliceRandom::choose(names.as_slice(), rng)
}

/// The names that queries are made for, in the order of the domain list.
#[derive(Debug)]
pub struct DomainPool {
    names: Vec<String>,
}

impl View for DomainPool {
    type V = Seq<Seq<char>>;

    closed spec fn view(&self) -> Seq<Seq<char>> {
        self.names@.map_values(|name: String| name@)
    }
}

impl DomainPool {
    /// A pool without names.
    pub fn new() -> (pool: DomainPool)
        ensures
            pool@ == Seq::<Seq<char>>::empty(),
    {
        let pool = DomainPool { names: Vec::new() };
        assert(pool@ =~= Seq::<Seq<char>>::empty());
        pool
    }

    /// Number of names in the pool.
    pub fn len(&self) -> (n: usize)
        ensures
            n == self@.len(),
    {
        self.names.len()
    }

    /// Tells whether the pool holds no name.
    pub fn is_empty(&self) -> (b: bool)
        ensures
            b == (self@.len() == 0),
    {
        self.names.len() == 0
    }

    /// The name at position `i`.
    pub fn get(&self, i: usize) -> (name: &String)
        requires
            i < self@.len(),
        ensures
            name@ == self@[i as int],
    {
        &self.names[i]
    }

    /// Puts `name` at the end of the pool where it is not empty and `valid`,
    /// the validator's verdict on it, is true. The result tells whether the
    /// name was taken.
    pub fn accept(&mut self, name: &str, valid: bool) -> (taken: bool)
        ensures
            taken == (name@.len() > 0 && valid),
            final(self)@ == if taken {
                old(self)@.push(name@)
            } else {
                old(self)@
            },
    {
        if name.unicode_len() == 0 || !valid {
            return false;
        }
        let owned: String = name.to_owned();
        self.names.push(owned);
        assert(self@ =~= old(self)@.push(name@));
        true
    }

    /// Reads one line of a domain list: the line is trimmed, and enters the
    /// pool where it is then neither empty nor refused as a domain name. The
    /// result tells whether it did.
    pub fn push_line(&mut self, line: &str) -> (taken: bool)
        ensures
            taken == is_entry(trimmed(line@)),
            final(self)@ == if taken {
                old(self)@.push(trimmed(line@))
            } else {
                old(self)@
            },
    {
        let name = trim(line);
        if name.unicode_len() == 0 {
            return false;
        }
        let valid = valid_domain(name);
        self.accept(name, valid)
    }

    /// Picks one name of the pool at random; `None` where the pool is empty.
    pub fn pick(&self, rng: &mut rand::rngs::ThreadRng) -> (r: Option<&String>)
        ensures
            r is None <==> self@.len() == 0,
            r matches Some(name) ==> self@.contains(name@),
    {
        let r = choose_name(&self.names, rng);
        proof {
            if let Some(name) = r {
                let i = choose|i: int| 0 <= i < self.names@.len() && self.names@[i] == *name;
                assert(self@[i] == name@);
            }
        }
        r
    }
}

/// Builds the pool from the lines of a domain list, one name to a line.
/// Blank lines are skipped, and so are lines that are no domain names.
pub fn read_domains(lines: &Vec<String>) -> (pool: DomainPool)
    ensures
        pool@ == pool_of(lines@.map_values(|line: String| line@)),
{
    let mut pool = DomainPool::new();
    let ghost texts = lines@.map_values(|line: String| line@);
    let mut i: usize = 0;
    assert(texts.take(0) =~= Seq::<Seq<char>>::empty());
    proof {
        reveal(Seq::filter);
    }
    while i < lines.len()
        invariant
            i <= lines.len(),
            texts == lines@.map_values(|line: String| line@),
            pool@ == pool_of(texts.take(i as int)),
        decreases lines.len() - i,
    {
        let taken = pool.push_line(lines[i].as_str());
        proof {
            let before = texts.take(i as int);
            let line = texts[i as int];
            let names = before.map_values(|line: Seq<char>| trimmed(line));
            assert(texts.take(i as int + 1) =~= before.push(line));
            assert(before.push(line).map_values(|line: Seq<char>| trimmed(line)) =~= names.push(
                trimmed(line),
            ));
            names.lemma_filter_push(trimmed(line), |name: Seq<char>| is_entry(name));
        }
        i += 1;
    }
    assert(texts.take(i as int) =~= texts);
    pool
}

} // verus!
