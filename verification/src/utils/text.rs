//! Small verified helpers over strings: moving between a `String` and its
//! characters.

use vstd::prelude::*;
use vstd::std_specs::iter::IteratorSpec;

verus! {

/// Relies on String::push: appends exactly the one character.
#[verifier::external_body]
pub fn push_char(s: &mut String, c: char)
    ensures
        final(s)@ == old(s)@.push(c),
{
    s.push(c)
}

/// The characters of a string, in order.
pub fn chars_of(s: &str) -> (r: Vec<char>)
    ensures
        r@ == s@,
{
    let mut v: Vec<char> = Vec::new();
    let mut it = s.chars();
    proof {
        vstd::string::axiom_spec_iter(s);
    }
    let ghost all = s@;
    loop
        invariant
            all == s@,
            it.remaining() =~= all.skip(v@.len() as int),
            v@.len() <= all.len(),
            v@ == all.take(v@.len() as int),
        decreases all.len() - v@.len(),
    {
        let ghost pre = it;
        let nx = it.next();
        proof {
            vstd::string::next_postcondition(&pre, &it, nx);
        }
        match nx {
            Some(c) => {
                proof {
                    assert(pre.remaining().len() > 0);
                    assert(c == all[v@.len() as int]);
                }
                v.push(c);
                proof {
                    assert(it.remaining() =~= all.skip(v@.len() as int));
                    assert(v@ =~= all.take(v@.len() as int));
                }
            },
            None => {
                proof {
                    assert(pre.remaining().len() == 0);
                    assert(all.skip(v@.len() as int).len() == 0);
                    assert(v@.len() == all.len());
                    assert(v@ =~= all);
                    assert(v@ =~= s@);
                    assert(v@ == s@);
                }
                return v;
            },
        }
    }
}

/// A string holding the given characters, in order.
pub fn from_chars(v: &Vec<char>) -> (r: String)
    ensures
        r@ == v@,
{
    let mut s = String::new();
    let mut i: usize = 0;
    while i < v.len()
        invariant
            i <= v@.len(),
            s@ == v@.take(i as int),
        decreases v@.len() - i,
    {
        push_char(&mut s, v[i]);
        proof {
            assert(v@.take(i as int).push(v@[i as int]) =~= v@.take(i as int + 1));
        }
        i += 1;
    }
    proof {
        assert(v@.take(v@.len() as int) =~= v@);
    }
    s
}

} // verus!
