//! Gathering the library of a program: the texts that it includes, and the
//! texts that those include in turn. The loader says which name to fetch
//! next; whoever has the texts supplies them.
use vstd::prelude::*;
use crate::dialect::{requests, IncludeSpec};
use crate::pp::{include_requests, library_view, strings_view, IncludeFile};
use crate::utils::{find_named, lines, names_of, position};

verus! {

/// The mathematical content of a [`Loader`].
pub struct LoaderSpec {
    /// The texts supplied so far, in the order in which they came.
    pub library: Seq<IncludeSpec>,
    /// The names handed out so far, in the order in which they were.
    pub asked: Seq<Seq<char>>,
    /// The names that texts have asked for and that were not looked at yet.
    pub pending: Seq<Seq<char>>,
}

/// The index in `pending` of the name to fetch next: the last pending name
/// that was not handed out before.
pub open spec fn next_wanted(asked: Seq<Seq<char>>, pending: Seq<Seq<char>>) -> Option<nat>
    decreases pending.len(),
{
    if pending.len() == 0 {
        None
    } else if position(asked, pending.last()) is None {
        Some((pending.len() - 1) as nat)
    } else {
        next_wanted(asked, pending.drop_last())
    }
}

/// The state of gathering a library.
#[derive(Debug)]
pub struct Loader {
    library: Vec<IncludeFile>,
    asked: Vec<String>,
    pending: Vec<String>,
}

impl View for Loader {
    type V = LoaderSpec;

    closed spec fn view(&self) -> LoaderSpec {
        LoaderSpec {
            library: library_view(self.library@),
            asked: strings_view(self.asked@),
            pending: strings_view(self.pending@),
        }
    }
}

impl Loader {
    /// Starts with the names that the program itself asks for.
    pub fn new(source: &str) -> (loader: Loader)
        ensures
            loader@ == (LoaderSpec {
                library: Seq::empty(),
                asked: Seq::empty(),
                pending: requests(lines(source@)),
            }),
    {
        let loader = Loader {
            library: Vec::new(),
            asked: Vec::new(),
            pending: include_requests(source),
        };
        assert(loader@.library =~= Seq::empty());
        assert(loader@.asked =~= Seq::empty());
        loader
    }

    /// Hands out the name to fetch next, each name once. `None` when every
    /// name that was asked for has been handed out.
    pub fn next_request(&mut self) -> (r: Option<String>)
        ensures
            match next_wanted(old(self)@.asked, old(self)@.pending) {
                None => r is None && final(self)@ == (LoaderSpec {
                    pending: Seq::empty(),
                    ..old(self)@
                }),
                Some(k) => r is Some && r->0@ == old(self)@.pending[k as int] && final(self)@ == (
                LoaderSpec {
                    asked: old(self)@.asked.push(old(self)@.pending[k as int]),
                    pending: old(self)@.pending.take(k as int),
                    ..old(self)@
                }),
            },
    {
        let ghost before = self@;
        assert(before.pending.take(before.pending.len() as int) =~= before.pending);
        while self.pending.len() > 0
            invariant
                before == old(self)@,
                self@.library == before.library,
                self@.asked == before.asked,
                self.pending.len() <= before.pending.len(),
                self@.pending == before.pending.take(self.pending.len() as int),
                next_wanted(before.asked, before.pending) == next_wanted(
                    before.asked,
                    self@.pending,
                ),
            decreases self.pending.len(),
        {
            let ghost rest = self@.pending;
            let name = self.pending.pop().unwrap();
            assert(self@.pending =~= rest.drop_last());
            assert(name@ == rest.last());
            assert(names_of(self.asked@) =~= self@.asked);
            if find_named(&self.asked, &name).is_none() {
                let ghost k = rest.len() - 1;
                assert(next_wanted(before.asked, rest) == Some(k as nat));
                assert(before.pending[k] == rest[k]);
                self.asked.push(name.clone());
                assert(self@.asked =~= before.asked.push(name@));
                assert(self@.pending =~= before.pending.take(k));
                return Some(name);
            }
            assert(self@.pending =~= before.pending.take(self.pending.len() as int));
        }
        assert(self@.pending =~= Seq::empty());
        None
    }

    /// Takes a text that was fetched under a name; what the text asks for is
    /// looked at next.
    pub fn supply(&mut self, name: String, text: String)
        ensures
            final(self)@ == (LoaderSpec {
                library: old(self)@.library.push(IncludeSpec { name: name@, text: text@ }),
                pending: old(self)@.pending + requests(lines(text@)),
                ..old(self)@
            }),
    {
        let mut wanted = include_requests(text.as_str());
        let ghost added = strings_view(wanted@);
        let ghost before = self@;
        self.pending.append(&mut wanted);
        assert(self@.pending =~= before.pending + added);
        self.library.push(IncludeFile { name, text });
        assert(self@.library =~= before.library.push(IncludeSpec { name: name@, text: text@ }));
    }

    /// The texts that were supplied.
    pub fn into_library(self) -> (library: Vec<IncludeFile>)
        ensures
            library_view(library@) == self@.library,
    {
        self.library
    }
}

} // verus!
