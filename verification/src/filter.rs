use vstd::prelude::*;
use vstd::string::StrSliceExecFns;
use vstd::string::StringExecFns;
use crate::SyntaxError;

verus! {

/// Whitespace between tokens of a configuration payload.
pub open spec fn spec_is_ws(c: char) -> bool {
    c == ' ' || c == '\t' || c == '\n' || c == '\r'
}

/// A character that may begin an identifier.
pub open spec fn spec_is_ident_start(c: char) -> bool {
    (('a' as u32) <= (c as u32) && (c as u32) <= ('z' as u32))
        || (('A' as u32) <= (c as u32) && (c as u32) <= ('Z' as u32))
        || c == '_'
}

/// A character that may continue an identifier.
pub open spec fn spec_is_ident_cont(c: char) -> bool {
    spec_is_ident_start(c) || (('0' as u32) <= (c as u32) && (c as u32) <= ('9' as u32))
}

/// The first index at or after `i` that does not continue an identifier.
pub open spec fn spec_ident_end(s: Seq<char>, i: nat) -> nat
    decreases s.len() - i,
{
    if i >= s.len() {
        i
    } else if spec_is_ident_cont(s[i as int]) {
        spec_ident_end(s, i + 1)
    } else {
        i
    }
}

pub proof fn lemma_ident_end_bounds(s: Seq<char>, i: nat)
    requires
        i <= s.len(),
    ensures
        i <= spec_ident_end(s, i) <= s.len(),
    decreases s.len() - i,
{
    if i < s.len() && spec_is_ident_cont(s[i as int]) {
        lemma_ident_end_bounds(s, i + 1);
    }
}

/// The grammar of a configuration payload, mirrored as one scan from
/// character index `i`: identifiers, consecutive ones separated by at most
/// one comma, with whitespace free between tokens and a trailing comma
/// permitted. `acc` collects the identifiers seen so far; `comma_ok` records
/// whether a comma may come next (that is, whether an identifier came last).
/// The result is the final identifier set, or the index of the first
/// offending token.
pub open spec fn spec_parse(s: Seq<char>, i: nat, acc: Set<Seq<char>>, comma_ok: bool) -> Result<
    Set<Seq<char>>,
    nat,
>
    decreases s.len() - i,
        via spec_parse_decreases
{
    if i >= s.len() {
        Ok(acc)
    } else if spec_is_ws(s[i as int]) {
        spec_parse(s, i + 1, acc, comma_ok)
    } else if s[i as int] == ',' {
        if comma_ok {
            spec_parse(s, i + 1, acc, false)
        } else {
            Err(i)
        }
    } else if spec_is_ident_start(s[i as int]) {
        if spec_ident_end(s, i + 1) == i + 1 && s[i as int] == '_' {
            Err(i)
        } else {
            spec_parse(
                s,
                spec_ident_end(s, i + 1),
                acc.insert(s.subrange(i as int, spec_ident_end(s, i + 1) as int)),
                true,
            )
        }
    } else {
        Err(i)
    }
}

#[via_fn]
proof fn spec_parse_decreases(s: Seq<char>, i: nat, acc: Set<Seq<char>>, comma_ok: bool) {
    if i < s.len() && !spec_is_ws(s[i as int]) && s[i as int] != ','
        && spec_is_ident_start(s[i as int]) {
        lemma_ident_end_bounds(s, i + 1);
    }
}

/// The identifier set denoted by a whole configuration payload, where the
/// payload is well-formed.
pub open spec fn spec_filter_of(s: Seq<char>) -> Result<Set<Seq<char>>, nat> {
    spec_parse(s, 0, Set::empty(), false)
}

/// The set of views of the strings in a sequence.
pub open spec fn names_set(ns: Seq<String>) -> Set<Seq<char>> {
    Set::new(|x: Seq<char>| exists|k: int| 0 <= k < ns.len() && ns[k]@ == x)
}

/// An identifier filter: the set of parameter names that a transformation is
/// restricted to. The empty set is the distinguished "no filtering" value,
/// under which every eligible parameter is transformed.
#[derive(Debug)]
pub struct Filter {
    pub names: Vec<String>,
}

impl View for Filter {
    type V = Set<Seq<char>>;

    open spec fn view(&self) -> Set<Seq<char>> {
        names_set(self.names@)
    }
}

impl Filter {
    /// A filter that restricts nothing.
    pub fn new_empty() -> (r: Filter)
        ensures
            r@ == Set::<Seq<char>>::empty(),
            r@.is_empty(),
    {
        let r = Filter { names: Vec::new() };
        proof {
            assert(r@ =~= Set::<Seq<char>>::empty());
        }
        r
    }

    /// Whether the filter is the distinguished "no filtering" value.
    pub fn is_empty(&self) -> (b: bool)
        ensures
            b == self@.is_empty(),
    {
        let b = self.names.len() == 0;
        proof {
            if b {
                assert(self@ =~= Set::<Seq<char>>::empty());
            } else {
                assert(self@.contains(self.names@[0]@));
            }
        }
        b
    }

    /// Whether `name` is a member of the filter.
    pub fn contains(&self, name: &String) -> (b: bool)
        ensures
            b == self@.contains(name@),
    {
        let mut k: usize = 0;
        while k < self.names.len()
            invariant
                k <= self.names.len(),
                forall|j: int| 0 <= j < k ==> self.names@[j]@ != name@,
            decreases self.names.len() - k,
        {
            if self.names[k].eq(name) {
                return true;
            }
            k += 1;
        }
        false
    }
}

/// An exec mirror of `spec_is_ws`.
fn is_ws(c: char) -> (b: bool)
    ensures
        b == spec_is_ws(c),
{
    c == ' ' || c == '\t' || c == '\n' || c == '\r'
}

/// An exec mirror of `spec_is_ident_start`.
fn is_ident_start(c: char) -> (b: bool)
    ensures
        b == spec_is_ident_start(c),
{
    let u = c as u32;
    (97 <= u && u <= 122) || (65 <= u && u <= 90) || c == '_'
}

/// An exec mirror of `spec_is_ident_cont`.
fn is_ident_cont(c: char) -> (b: bool)
    ensures
        b == spec_is_ident_cont(c),
{
    let u = c as u32;
    is_ident_start(c) || (48 <= u && u <= 57)
}

/// Decodes a configuration payload into an identifier filter: identifiers,
/// optionally separated by a single comma, a trailing comma permitted, any
/// whitespace around tokens. Repeated identifiers collapse silently into one
/// membership. Fails, with the character index of the offending token, if
/// and only if the payload does not match that grammar.
pub fn parse_filter(src: &str) -> (r: Result<Filter, SyntaxError>)
    ensures
        (match r {
            Ok(f) => spec_filter_of(src@) == Ok::<Set<Seq<char>>, nat>(f@),
            Err(e) => spec_filter_of(src@) == Err::<Set<Seq<char>>, nat>(e.pos as nat),
        }),
{
    let n = src.unicode_len();
    let mut i: usize = 0;
    let mut names: Vec<String> = Vec::new();
    let mut comma_ok = false;
    proof {
        assert(names_set(names@) =~= Set::<Seq<char>>::empty());
    }
    while i < n
        invariant
            n == src@.len(),
            i <= n,
            spec_filter_of(src@) == spec_parse(src@, i as nat, names_set(names@), comma_ok),
        decreases n - i,
    {
        let c = src.get_char(i);
        if is_ws(c) {
            i += 1;
        } else if c == ',' {
            if comma_ok {
                comma_ok = false;
                i += 1;
            } else {
                return Err(SyntaxError { pos: i });
            }
        } else if is_ident_start(c) {
            let start = i;
            let mut j = i + 1;
            while j < n && is_ident_cont(src.get_char(j))
                invariant
                    n == src@.len(),
                    start < j <= n,
                    spec_ident_end(src@, (start + 1) as nat) == spec_ident_end(src@, j as nat),
                decreases n - j,
            {
                j += 1;
            }
            proof {
                assert(spec_ident_end(src@, j as nat) == j);
                assert(spec_ident_end(src@, (start + 1) as nat) == j);
            }
            if j == start + 1 && c == '_' {
                return Err(SyntaxError { pos: start });
            }
            let token = src.substring_char(start, j);
            let ghost old_names = names@;
            names.push(String::from_str(token));
            comma_ok = true;
            i = j;
            proof {
                let tok = src@.subrange(start as int, j as int);
                assert forall|x: Seq<char>| names_set(names@).contains(x) implies names_set(
                    old_names,
                ).insert(tok).contains(x) by {
                    let k = choose|k: int| 0 <= k < names@.len() && names@[k]@ == x;
                    if k < old_names.len() {
                        assert(old_names[k]@ == x);
                        assert(names_set(old_names).contains(x));
                    } else {
                        assert(x == tok);
                    }
                }
                assert forall|x: Seq<char>|
                    names_set(old_names).insert(tok).contains(x) implies names_set(
                    names@,
                ).contains(x) by {
                    if names_set(old_names).contains(x) {
                        let k = choose|k: int| 0 <= k < old_names.len() && old_names[k]@ == x;
                        assert(names@[k]@ == x);
                    } else {
                        assert(names@[old_names.len() as int]@ == x);
                    }
                }
                assert(names_set(names@) =~= names_set(old_names).insert(tok));
            }
        } else {
            return Err(SyntaxError { pos: i });
        }
    }
    Ok(Filter { names })
}

} // verus!
