//! Two small string-handling exercises: dropping the spaces from a string,
//! and a newtype that accepts anything convertible into an owned string.
//! The space-dropping result is always an owned string; a copy-on-write
//! shell around it can still hand out the input unchanged when it carries
//! no space, since the characters are then provably the same.

use vstd::prelude::*;
use vstd::std_specs::convert::IntoSpec;

verus! {

/// The characters of `s` that are not spaces, in order.
pub open spec fn spec_without_spaces(s: Seq<char>) -> Seq<char>
    decreases s.len(),
{
    if s.len() == 0 {
        Seq::empty()
    } else {
        let rest = spec_without_spaces(s.drop_last());
        if s.last() == ' ' {
            rest
        } else {
            rest.push(s.last())
        }
    }
}

/// Drop every space character from the input.
pub fn remove_spaces(input: &str) -> (r: String)
    ensures
        r@ == spec_without_spaces(input@),
{
    let n = input.unicode_len();
    let mut out = String::new();
    let mut i: usize = 0;
    proof {
        assert(input@.take(0) =~= Seq::<char>::empty());
    }
    while i < n
        invariant
            n == input@.len(),
            i <= n,
            out@ == spec_without_spaces(input@.take(i as int)),
        decreases n - i,
    {
        let c = input.get_char(i);
        proof {
            assert(input@.take(i + 1).drop_last() =~= input@.take(i as int));
            assert(input@.take(i + 1).last() == c);
        }
        if c != ' ' {
            let piece = input.substring_char(i, i + 1);
            proof {
                assert(piece@ =~= seq![c]);
            }
            out.append(piece);
            proof {
                assert(out@ =~= spec_without_spaces(input@.take(i + 1)));
            }
        } else {
            proof {
                assert(out@ =~= spec_without_spaces(input@.take(i + 1)));
            }
        }
        i = i + 1;
    }
    proof {
        assert(input@.take(n as int) =~= input@);
    }
    out
}

/// Law: a string that carries no space is unchanged by space removal —
/// the case where a copy-on-write caller may keep the borrowed input.
pub proof fn lemma_no_space_identity(s: Seq<char>)
    requires
        !s.contains(' '),
    ensures
        spec_without_spaces(s) == s,
    decreases s.len(),
{
    if s.len() > 0 {
        assert(s.last() != ' ');
        assert(!s.drop_last().contains(' ')) by {
            if s.drop_last().contains(' ') {
                let j = choose|j: int| 0 <= j < s.drop_last().len() && s.drop_last()[j] == ' ';
                assert(s[j] == ' ');
            }
        }
        lemma_no_space_identity(s.drop_last());
        assert(spec_without_spaces(s) =~= s);
    }
}

/// An owned string wrapper that accepts any value convertible to `String`.
#[derive(Debug)]
pub struct MyString {
    data: String,
}

impl MyString {
    /// The characters held.
    pub closed spec fn view(&self) -> Seq<char> {
        self.data@
    }

    /// Wrap anything that converts into an owned string. When the source
    /// type's conversion has a specification, the held string is exactly
    /// the converted value.
    pub fn new<T: Into<String>>(s: T) -> (r: MyString)
        ensures
            <T as vstd::std_specs::convert::IntoSpec<String>>::obeys_into_spec() ==> r@
                == s.into_spec()@,
    {
        MyString { data: s.into() }
    }

    /// Wrap a borrowed string, copying its characters.
    pub fn from_text(s: &str) -> (r: MyString)
        ensures
            r@ == s@,
    {
        MyString { data: String::from_str(s) }
    }

    /// Wrap an owned string, taking it over without a copy.
    pub fn from_owned(s: String) -> (r: MyString)
        ensures
            r@ == s@,
    {
        MyString { data: s }
    }

    /// Read access to the held string.
    pub fn as_str(&self) -> (r: &str)
        ensures
            r@ == self.view(),
    {
        self.data.as_str()
    }
}

} // verus!
