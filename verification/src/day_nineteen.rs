//! Paging through a list of quotes, three to a page: a page that has a
//! successor hands out a token, and the token, used once, leads to that
//! successor.

use vstd::prelude::*;
use rand::distributions::{Alphanumeric, DistString};

verus! {

/// A token that was handed out and the offset it stands for.
struct Entry {
    token: String,
    offset: i32,
}

/// The tokens that are still good, each with the offset of the page it
/// leads to.
pub struct TokenStore {
    entries: Vec<Entry>,
}

/// The map that a list of entries stands for.
spec fn entries_map(entries: Seq<Entry>) -> Map<Seq<char>, i32>
    decreases entries.len(),
{
    if entries.len() == 0 {
        Map::empty()
    } else {
        entries_map(entries.drop_last()).insert(entries.last().token@, entries.last().offset)
    }
}

/// No token stands twice in the list.
spec fn distinct(entries: Seq<Entry>) -> bool {
    forall|i: int, j: int|
        0 <= i < j < entries.len() ==> (#[trigger] entries[i]).token@ != (
        #[trigger] entries[j]).token@
}

/// The keys of the map are the tokens of the list.
proof fn lemma_entries_keys(entries: Seq<Entry>, token: Seq<char>)
    ensures
        entries_map(entries).contains_key(token) <==> exists|i: int|
            0 <= i < entries.len() && (#[trigger] entries[i]).token@ == token,
    decreases entries.len(),
{
    if entries.len() > 0 {
        let rest = entries.drop_last();
        lemma_entries_keys(rest, token);
        if entries_map(entries).contains_key(token) {
            if entries.last().token@ == token {
                assert(entries[entries.len() - 1].token@ == token);
            } else {
                let i = choose|i: int| 0 <= i < rest.len() && (#[trigger] rest[i]).token@ == token;
                assert(entries[i].token@ == token);
            }
        }
        if exists|i: int| 0 <= i < entries.len() && (#[trigger] entries[i]).token@ == token {
            let i = choose|i: int|
                0 <= i < entries.len() && (#[trigger] entries[i]).token@ == token;
            if i < rest.len() {
                assert(rest[i].token@ == token);
            }
        }
    }
}

/// Where no token stands twice, the map gives each token the offset that
/// stands beside it.
proof fn lemma_entries_value(entries: Seq<Entry>, i: int)
    requires
        distinct(entries),
        0 <= i < entries.len(),
    ensures
        entries_map(entries).contains_key(entries[i].token@),
        entries_map(entries)[entries[i].token@] == entries[i].offset,
    decreases entries.len(),
{
    let rest = entries.drop_last();
    if i < entries.len() - 1 {
        assert(forall|k: int| 0 <= k < rest.len() ==> rest[k] == entries[k]);
        lemma_entries_value(rest, i);
        assert(entries[i].token@ != entries[entries.len() - 1].token@);
    }
}

/// Taking an entry out of a list without doubles takes its token out of
/// the map, and leaves a list without doubles.
proof fn lemma_entries_remove(entries: Seq<Entry>, i: int)
    requires
        distinct(entries),
        0 <= i < entries.len(),
    ensures
        distinct(entries.remove(i)),
        entries_map(entries.remove(i)) == entries_map(entries).remove(entries[i].token@),
    decreases entries.len(),
{
    let rest = entries.drop_last();
    let last = entries.len() - 1;
    assert(forall|k: int| 0 <= k < rest.len() ==> rest[k] == entries[k]);
    if i == last {
        assert(entries.remove(i) =~= rest);
        lemma_entries_keys(rest, entries[i].token@);
        if entries_map(rest).contains_key(entries[i].token@) {
            let k = choose|k: int|
                0 <= k < rest.len() && (#[trigger] rest[k]).token@ == entries[i].token@;
            assert(entries[k].token@ != entries[last].token@);
        }
        assert(entries_map(rest) =~= entries_map(entries).remove(entries[i].token@));
    } else {
        assert(entries.remove(i).drop_last() =~= rest.remove(i));
        assert(entries.remove(i).last() == entries[last]);
        lemma_entries_remove(rest, i);
        assert(entries[i].token@ != entries[last].token@);
        assert(entries_map(entries.remove(i)) =~= entries_map(entries).remove(
            entries[i].token@,
        ));
    }
    assert forall|a: int, b: int| 0 <= a < b < entries.remove(i).len() implies (
    #[trigger] entries.remove(i)[a]).token@ != (#[trigger] entries.remove(i)[b]).token@ by {
        let a0 = if a < i { a } else { a + 1 };
        let b0 = if b < i { b } else { b + 1 };
        assert(entries[a0].token@ != entries[b0].token@);
    }
}

impl View for TokenStore {
    type V = Map<Seq<char>, i32>;

    closed spec fn view(&self) -> Map<Seq<char>, i32> {
        entries_map(self.entries@)
    }
}

/// An ASCII letter or digit.
pub open spec fn is_letter_or_digit(c: char) -> bool {
    ('A' <= c <= 'Z') || ('a' <= c <= 'z') || ('0' <= c <= '9')
}

/// Length of a token.
pub const TOKEN_LENGTH: usize = 16;

/// A token as this library hands them out: sixteen ASCII letters and digits.
pub open spec fn is_token(token: Seq<char>) -> bool {
    &&& token.len() == 16
    &&& forall|i: int| 0 <= i < 16 ==> is_letter_or_digit(#[trigger] token[i])
}

/// Draws a text with `rand`: `sample_string` of its `Alphanumeric`
/// distribution, over the thread's generator, gives `len` characters, each
/// an ASCII letter or digit. Nothing is claimed of which ones come out.
#[verifier::external_body]
fn random_text(len: usize) -> (text: String)
    ensures
        text@.len() == len,
        forall|i: int| 0 <= i < len ==> is_letter_or_digit(#[trigger] text@[i]),
{
    Alphanumeric.sample_string(&mut rand::thread_rng(), len)
}

impl TokenStore {
    /// The invariant of every store.
    pub closed spec fn wf(&self) -> bool {
        distinct(self.entries@)
    }

    /// A store without tokens.
    pub fn new() -> (store: TokenStore)
        ensures
            store.wf(),
            store@ == Map::<Seq<char>, i32>::empty(),
    {
        TokenStore { entries: Vec::new() }
    }

    /// Takes `token` out of the store and returns its offset, if the store
    /// has it.
    pub fn remove(&mut self, token: &String) -> (offset: Option<i32>)
        requires
            old(self).wf(),
        ensures
            final(self).wf(),
            final(self)@ == old(self)@.remove(token@),
            offset == (if old(self)@.contains_key(token@) {
                Some(old(self)@[token@])
            } else {
                None
            }),
    {
        let mut i: usize = 0;
        while i < self.entries.len()
            invariant
                i <= self.entries@.len(),
                self.entries@ == old(self).entries@,
                distinct(self.entries@),
                forall|k: int| 0 <= k < i ==> (#[trigger] self.entries@[k]).token@ != token@,
            decreases self.entries@.len() - i,
        {
            if self.entries[i].token == *token {
                proof {
                    lemma_entries_value(self.entries@, i as int);
                    lemma_entries_remove(self.entries@, i as int);
                }
                let entry = self.entries.remove(i);
                return Some(entry.offset);
            }
            i += 1;
        }
        proof {
            lemma_entries_keys(self.entries@, token@);
            assert(self@ =~= old(self)@.remove(token@));
        }
        None
    }

    /// Puts `token` into the store with `offset`, in place of what the
    /// store had for it.
    pub fn insert(&mut self, token: String, offset: i32)
        requires
            old(self).wf(),
        ensures
            final(self).wf(),
            final(self)@ == old(self)@.insert(token@, offset),
    {
        let _ = self.remove(&token);
        proof {
            lemma_entries_keys(self.entries@, token@);
            assert(!self@.contains_key(token@));
        }
        let ghost before = self.entries@;
        self.entries.push(Entry { token, offset });
        proof {
            assert(self.entries@.drop_last() =~= before);
            assert(self@ =~= old(self)@.insert(token@, offset));
        }
    }
}

impl Default for TokenStore {
    fn default() -> (store: TokenStore)
        ensures
            store.wf(),
            store@ == Map::<Seq<char>, i32>::empty(),
    {
        TokenStore::new()
    }
}

/// One page of the list, before the quotes are put on it.
pub struct Page {
    /// Token for the page that follows, if there is one.
    pub next_token: Option<String>,
    /// Number of this page, the first being 1.
    pub page: i32,
    /// How many of the quotes that were fetched belong on this page.
    pub quotes: usize,
}

/// Quotes on a page.
pub const PAGE_SIZE: i32 = 3;

/// The offset from which a request reads: 0 without a token, else the
/// offset that the token stands for. A token is good once: it leaves the
/// store. An unknown token gives nothing.
pub fn list_offset(store: &mut TokenStore, token: Option<&String>) -> (offset: Option<i32>)
    requires
        old(store).wf(),
    ensures
        final(store).wf(),
        match token {
            None => offset == Some(0i32) && final(store)@ == old(store)@,
            Some(t) => final(store)@ == old(store)@.remove(t@) && offset == (if old(
                store,
            )@.contains_key(t@) {
                Some(old(store)@[t@])
            } else {
                None
            }),
        },
{
    match token {
        Some(t) => store.remove(t),
        None => Some(0),
    }
}

/// Lays out the page that starts at `offset`, given how many quotes were
/// fetched from there, one more than a page holds being asked for. A fourth
/// quote shows that a page follows: a fresh token is stored for the offset
/// three on, and returned. At most three quotes stay on the page.
pub fn list_page(store: &mut TokenStore, offset: i32, fetched: usize) -> (page: Page)
    requires
        old(store).wf(),
        0 <= offset <= i32::MAX - 3,
    ensures
        final(store).wf(),
        page.page == offset / 3 + 1,
        page.quotes == (if fetched < 3 {
            fetched
        } else {
            3
        }),
        page.next_token is Some <==> fetched == 4,
        fetched != 4 ==> final(store)@ == old(store)@,
        page.next_token matches Some(t) ==> is_token(t@) && final(store)@ == old(store)@.insert(
            t@,
            (offset + 3) as i32,
        ),
{
    let next_token = if fetched == 4 {
        let token = random_text(TOKEN_LENGTH);
        store.insert(token.clone(), offset + PAGE_SIZE);
        Some(token)
    } else {
        None
    };
    Page {
        next_token,
        page: offset / PAGE_SIZE + 1,
        quotes: if fetched < 3 {
            fetched
        } else {
            3
        },
    }
}

} // verus!
