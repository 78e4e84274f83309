//! HTTP headers.
use crate::text;
use vstd::prelude::*;

pub mod laws;

verus! {

/// One header: its name in lower case and the bytes of its value.
#[derive(Debug)]
pub struct Header {
    pub name: String,
    pub value: Vec<u8>,
}

/// The headers of a message in their order. A name may occur more than once.
#[derive(Debug)]
pub struct Headers {
    pub list: Vec<Header>,
}

/// A header in mathematical form.
pub struct HeaderView {
    pub name: Seq<char>,
    pub value: Seq<u8>,
}

impl Header {
    /// The header in mathematical form.
    pub open spec fn view(&self) -> HeaderView {
        HeaderView { name: self.name@, value: self.value@ }
    }
}

/// Headers in mathematical form.
pub open spec fn views(v: Seq<Header>) -> Seq<HeaderView> {
    v.map_values(|h: Header| h@)
}

/// The value of the first header with this name.
pub open spec fn first_value(s: Seq<HeaderView>, name: Seq<char>) -> Option<Seq<u8>>
    decreases s.len(),
{
    if s.len() == 0 {
        None
    } else if s[0].name == name {
        Some(s[0].value)
    } else {
        first_value(s.skip(1), name)
    }
}

/// A byte that a header value shows as a character: visible ASCII, space or
/// tab.
pub open spec fn is_visible(b: u8) -> bool {
    32 <= b < 127 || b == 9
}

/// A header value as text, where it has only visible characters.
pub open spec fn value_text(v: Seq<u8>) -> Option<Seq<char>> {
    if forall|i: int| 0 <= i < v.len() ==> is_visible(#[trigger] v[i]) {
        Some(Seq::new(v.len(), |i: int| v[i] as char))
    } else {
        None
    }
}

/// The text of the first header with this name.
pub open spec fn first_text(s: Seq<HeaderView>, name: Seq<char>) -> Option<Seq<char>> {
    match first_value(s, name) {
        Some(v) => value_text(v),
        None => None,
    }
}

/// A header value as text.
pub fn visible_text(v: &Vec<u8>) -> (r: Option<String>)
    ensures
        match r {
            Some(t) => value_text(v@) == Some(t@),
            None => value_text(v@) is None,
        },
{
    let mut out = String::new();
    let mut i: usize = 0;
    while i < v.len()
        invariant
            i <= v@.len(),
            forall|j: int| 0 <= j < i ==> is_visible(#[trigger] v@[j]),
            out@ == Seq::new(i as nat, |j: int| v@[j] as char),
        decreases v@.len() - i,
    {
        let b: u8 = v[i];
        if !((32 <= b && b < 127) || b == 9) {
            proof {
                assert(!is_visible(v@[i as int]));
            }
            return None;
        }
        out.push(b as char);
        i += 1;
        proof {
            assert(out@ =~= Seq::new(i as nat, |j: int| v@[j] as char));
        }
    }
    Some(out)
}

/// A copy of a header.
pub fn copy_header(h: &Header) -> (r: Header)
    ensures
        r@ == h@,
{
    Header { name: h.name.as_str().to_owned(), value: crate::bytes::copy(h.value.as_slice()) }
}

/// Headers without those of one name.
pub open spec fn without_name(s: Seq<HeaderView>, name: Seq<char>) -> Seq<HeaderView> {
    s.filter(|h: HeaderView| h.name != name)
}

/// Headers in which a name has this one value.
pub open spec fn with_value(s: Seq<HeaderView>, name: Seq<char>, value: Seq<u8>) -> Seq<
    HeaderView,
> {
    without_name(s, name).push(HeaderView { name, value })
}

impl Headers {
    /// The headers in mathematical form.
    pub open spec fn view(&self) -> Seq<HeaderView> {
        views(self.list@)
    }

    /// No headers.
    pub fn new() -> (r: Self)
        ensures
            r@ == Seq::<HeaderView>::empty(),
    {
        let r = Headers { list: Vec::new() };
        proof {
            assert(views(r.list@) =~= Seq::<HeaderView>::empty());
        }
        r
    }

    /// Adds a header; its name is put in lower case.
    pub fn append(&mut self, name: &str, value: Vec<u8>)
        ensures
            final(self)@ == old(self)@.push(
                HeaderView { name: text::lower(name@), value: value@ },
            ),
    {
        let ghost before = self@;
        let ghost v = value@;
        self.list.push(Header { name: text::to_lower(name), value });
        proof {
            assert(self@ =~= before.push(HeaderView { name: text::lower(name@), value: v }));
        }
    }

    /// Gives a name, which is in lower case, this one value.
    pub fn insert(&mut self, name: &str, value: Vec<u8>)
        ensures
            final(self)@ == with_value(old(self)@, name@, value@),
    {
        let ghost all = self@;
        let ghost keep = |h: HeaderView| h.name != name@;
        let mut list: Vec<Header> = Vec::new();
        let mut i: usize = 0;
        proof {
            reveal(Seq::filter);
            assert(all.take(0).filter(keep) =~= views(list@));
        }
        while i < self.list.len()
            invariant
                i <= self.list@.len(),
                all == self@,
                keep == (|h: HeaderView| h.name != name@),
                views(list@) == all.take(i as int).filter(keep),
            decreases self.list@.len() - i,
        {
            let ghost before = list@;
            if !text::same(self.list[i].name.as_str(), name) {
                list.push(copy_header(&self.list[i]));
                proof {
                    assert(views(list@) =~= views(before).push(all[i as int]));
                }
            }
            proof {
                reveal(Seq::filter);
                assert(all.take(i + 1).drop_last() =~= all.take(i as int));
            }
            i += 1;
        }
        proof {
            assert(all.take(i as int) =~= all);
        }
        let ghost kept = list@;
        let ghost v = value@;
        list.push(Header { name: name.to_owned(), value });
        proof {
            assert(views(list@) =~= views(kept).push(HeaderView { name: name@, value: v }));
        }
        self.list = list;
    }

    /// The value of the first header with this name, which is in lower case.
    pub fn get(&self, name: &str) -> (r: Option<&Vec<u8>>)
        ensures
            match r {
                Some(v) => first_value(self@, name@) == Some(v@),
                None => first_value(self@, name@) is None,
            },
    {
        let ghost all = self@;
        let mut i: usize = 0;
        proof {
            assert(all.skip(0) =~= all);
        }
        while i < self.list.len()
            invariant
                i <= self.list@.len(),
                all == self@,
                first_value(all, name@) == first_value(all.skip(i as int), name@),
            decreases self.list@.len() - i,
        {
            proof {
                assert(all.skip(i as int)[0] == self.list@[i as int]@);
                assert(all.skip(i as int).skip(1) =~= all.skip(i + 1));
            }
            if text::same(self.list[i].name.as_str(), name) {
                return Some(&self.list[i].value);
            }
            i += 1;
        }
        None
    }

    /// The text of the first header with this name, which is in lower case.
    pub fn get_str(&self, name: &str) -> (r: Option<String>)
        ensures
            match r {
                Some(t) => first_text(self@, name@) == Some(t@),
                None => first_text(self@, name@) is None,
            },
    {
        match self.get(name) {
            Some(v) => visible_text(v),
            None => None,
        }
    }
}

} // verus!
