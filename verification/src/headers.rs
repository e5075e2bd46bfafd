//! Header lists: names and values in the order they were added. Names are
//! matched without regard to ASCII case, and a name may occur more than
//! once.

use vstd::prelude::*;
use vstd::utf8::encode_utf8;

verus! {

/// The lower-case form of an ASCII letter; any other byte is kept.
pub open spec fn ascii_lower(b: u8) -> u8 {
    if 65 <= b <= 90 {
        (b + 32) as u8
    } else {
        b
    }
}

/// A name with its ASCII letters in lower case, as UTF-8 bytes.
pub open spec fn folded(name: Seq<char>) -> Seq<u8> {
    encode_utf8(name).map_values(|b: u8| ascii_lower(b))
}

/// Two header names are the same where they differ in ASCII case at most.
pub open spec fn same_name(a: Seq<char>, b: Seq<char>) -> bool {
    folded(a) == folded(b)
}

/// The model of one header: name and value.
pub type HeaderView = (Seq<char>, Seq<char>);

/// The entries of `entries` whose name is not `name`, in their order.
pub open spec fn without(entries: Seq<HeaderView>, name: Seq<char>) -> Seq<HeaderView>
    decreases entries.len(),
{
    if entries.len() == 0 {
        Seq::empty()
    } else {
        let rest = without(entries.drop_last(), name);
        if same_name(entries.last().0, name) {
            rest
        } else {
            rest.push(entries.last())
        }
    }
}

/// `entries` with every value of `name` replaced by the one `value`, which
/// comes last.
pub open spec fn with_header(entries: Seq<HeaderView>, name: Seq<char>, value: Seq<char>) -> Seq<
    HeaderView,
> {
    without(entries, name).push((name, value))
}

/// The first value that `entries` holds for `name`.
pub open spec fn first_value(entries: Seq<HeaderView>, name: Seq<char>) -> Option<Seq<char>>
    decreases entries.len(),
{
    if entries.len() == 0 {
        None
    } else if same_name(entries.first().0, name) {
        Some(entries.first().1)
    } else {
        first_value(entries.drop_first(), name)
    }
}

/// The model of a list of owned pairs.
pub open spec fn pairs_view(entries: Seq<(String, String)>) -> Seq<HeaderView> {
    entries.map_values(|e: (String, String)| (e.0@, e.1@))
}

fn lower(b: u8) -> (r: u8)
    ensures
        r == ascii_lower(b),
{
    if 65 <= b && b <= 90 {
        b + 32
    } else {
        b
    }
}

/// Whether two header names are the same but for ASCII case.
pub fn names_match(a: &str, b: &str) -> (r: bool)
    ensures
        r == same_name(a@, b@),
{
    let x = a.as_bytes();
    let y = b.as_bytes();
    if x.len() != y.len() {
        proof {
            assert(folded(a@).len() != folded(b@).len());
        }
        return false;
    }
    let mut i: usize = 0;
    while i < x.len()
        invariant
            i <= x.len(),
            x.len() == y.len(),
            x@ == encode_utf8(a@),
            y@ == encode_utf8(b@),
            forall|j: int| 0 <= j < i ==> folded(a@)[j] == folded(b@)[j],
        decreases x.len() - i,
    {
        if lower(x[i]) != lower(y[i]) {
            proof {
                assert(folded(a@)[i as int] != folded(b@)[i as int]);
            }
            return false;
        }
        i = i + 1;
    }
    proof {
        assert(folded(a@) =~= folded(b@));
    }
    true
}

/// An ordered list of headers.
#[derive(Debug, PartialEq, Eq)]
pub struct Headers {
    pub entries: Vec<(String, String)>,
}

impl View for Headers {
    type V = Seq<HeaderView>;

    open spec fn view(&self) -> Seq<HeaderView> {
        pairs_view(self.entries@)
    }
}

impl Clone for Headers {
    fn clone(&self) -> (r: Headers)
        ensures
            r@ == self@,
    {
        let mut entries: Vec<(String, String)> = Vec::new();
        let mut i: usize = 0;
        while i < self.entries.len()
            invariant
                i <= self.entries.len(),
                pairs_view(entries@) == self@.take(i as int),
            decreases self.entries.len() - i,
        {
            let ghost before = entries@;
            let name = self.entries[i].0.clone();
            let value = self.entries[i].1.clone();
            entries.push((name, value));
            proof {
                assert(self@[i as int] == (name@, value@));
                assert(pairs_view(entries@) =~= pairs_view(before).push((name@, value@)));
                assert(self@.take(i + 1) =~= self@.take(i as int).push(self@[i as int]));
            }
            i = i + 1;
        }
        proof {
            assert(self@.take(self@.len() as int) =~= self@);
        }
        Headers { entries }
    }
}

impl Headers {
    /// The empty list.
    pub fn new() -> (r: Headers)
        ensures
            r@ == Seq::<HeaderView>::empty(),
    {
        let r = Headers { entries: Vec::new() };
        proof {
            assert(r@ =~= Seq::<HeaderView>::empty());
        }
        r
    }

    /// The number of entries.
    pub fn len(&self) -> (n: usize)
        ensures
            n == self@.len(),
    {
        self.entries.len()
    }

    /// Adds an entry at the end and keeps what is there, also under the
    /// same name.
    pub fn append(&mut self, name: String, value: String)
        ensures
            final(self)@ == old(self)@.push((name@, value@)),
    {
        self.entries.push((name, value));
        proof {
            assert(self@ =~= old(self)@.push((name@, value@)));
        }
    }

    /// The first value held for `name`, if any.
    pub fn get(&self, name: &str) -> (r: Option<&String>)
        ensures
            match r {
                Some(value) => first_value(self@, name@) == Some(value@),
                None => first_value(self@, name@) is None,
            },
    {
        let mut i: usize = 0;
        proof {
            assert(self@.skip(0) =~= self@);
        }
        while i < self.entries.len()
            invariant
                i <= self.entries.len(),
                first_value(self@, name@) == first_value(self@.skip(i as int), name@),
            decreases self.entries.len() - i,
        {
            proof {
                assert(self@.skip(i as int).first() == self@[i as int]);
                assert(self@.skip(i as int).drop_first() =~= self@.skip(i + 1));
            }
            if names_match(self.entries[i].0.as_str(), name) {
                return Some(&self.entries[i].1);
            }
            i = i + 1;
        }
        None
    }

    /// Drops every entry named `name`.
    pub fn remove(&mut self, name: &str)
        ensures
            final(self)@ == without(old(self)@, name@),
    {
        let mut kept: Vec<(String, String)> = Vec::new();
        let mut i: usize = 0;
        while i < self.entries.len()
            invariant
                i <= self.entries.len(),
                *self == *old(self),
                pairs_view(kept@) == without(self@.take(i as int), name@),
            decreases self.entries.len() - i,
        {
            proof {
                assert(self@.take(i + 1).drop_last() =~= self@.take(i as int));
                assert(self@.take(i + 1).last() == self@[i as int]);
            }
            if !names_match(self.entries[i].0.as_str(), name) {
                let ghost before = kept@;
                let n = self.entries[i].0.clone();
                let v = self.entries[i].1.clone();
                kept.push((n, v));
                proof {
                    assert(self@[i as int] == (n@, v@));
                    assert(pairs_view(kept@) =~= pairs_view(before).push((n@, v@)));
                }
            }
            i = i + 1;
        }
        proof {
            assert(self@.take(self@.len() as int) =~= self@);
        }
        self.entries = kept;
    }

    /// Sets `name` to the one value `value`: earlier values of that name
    /// go, and the new entry comes last.
    pub fn insert(&mut self, name: String, value: String)
        ensures
            final(self)@ == with_header(old(self)@, name@, value@),
    {
        self.remove(name.as_str());
        self.append(name, value);
    }
}

/// After a header is set, its name has exactly the value that was set.
pub proof fn lemma_with_header_value(entries: Seq<HeaderView>, name: Seq<char>, value: Seq<char>)
    ensures
        first_value(with_header(entries, name, value), name) == Some(value),
{
    lemma_without_absent(entries, name);
    lemma_first_value_push(without(entries, name), name, (name, value));
}

/// What is left when a name is dropped holds no value for it.
pub proof fn lemma_without_absent(entries: Seq<HeaderView>, name: Seq<char>)
    ensures
        first_value(without(entries, name), name) is None,
    decreases entries.len(),
{
    if entries.len() > 0 {
        lemma_without_absent(entries.drop_last(), name);
        if !same_name(entries.last().0, name) {
            lemma_first_value_push(without(entries.drop_last(), name), name, entries.last());
        }
    }
}

/// The first value of a name in a list with one more entry at its end.
pub proof fn lemma_first_value_push(entries: Seq<HeaderView>, name: Seq<char>, last: HeaderView)
    ensures
        first_value(entries.push(last), name) == match first_value(entries, name) {
            Some(value) => Some(value),
            None => if same_name(last.0, name) {
                Some(last.1)
            } else {
                None
            },
        },
    decreases entries.len(),
{
    let longer = entries.push(last);
    if entries.len() == 0 {
        assert(longer.drop_first() =~= Seq::<HeaderView>::empty());
    } else {
        assert(longer.first() == entries.first());
        assert(longer.drop_first() =~= entries.drop_first().push(last));
        if !same_name(entries.first().0, name) {
            lemma_first_value_push(entries.drop_first(), name, last);
        }
    }
}

} // verus!
