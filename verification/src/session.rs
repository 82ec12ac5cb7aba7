//! The sessions of the users who are logged in.
//!
//! A session is known by its token, the decimal text of a number. The
//! number is the one that was drawn at login, or the next one that no
//! session had yet, so that no two sessions share a token. The store holds
//! the tokens that are valid: a token is accepted from the login that
//! created it until it is removed or the store is cleared. Nothing expires
//! by itself.

use crate::text::{decimal, decimal_digits, lemma_decimal_round_trip, text_of, texts};
use vstd::prelude::*;

verus! {

/// The tokens of the sessions that are valid, in the order of their logins.
pub struct SessionStore {
    tokens: Vec<String>,
}

/// `list` without every occurrence of `token`.
pub open spec fn without(list: Seq<Seq<char>>, token: Seq<char>) -> Seq<Seq<char>>
    decreases list.len(),
{
    if list.len() == 0 {
        list
    } else if list.last() == token {
        without(list.drop_last(), token)
    } else {
        without(list.drop_last(), token).push(list.last())
    }
}

/// What `without` takes away and what it leaves: `token` is gone, every
/// other token is there exactly if it was, and a list that does not hold
/// `token` is left as it is.
pub proof fn lemma_without(list: Seq<Seq<char>>, token: Seq<char>)
    ensures
        !without(list, token).contains(token),
        forall|other: Seq<char>|
            other != token ==> (#[trigger] without(list, token).contains(other)
                <==> list.contains(other)),
        !list.contains(token) ==> without(list, token) == list,
    decreases list.len(),
{
    if list.len() > 0 {
        let rest = list.drop_last();
        lemma_without(rest, token);
        let kept = without(rest, token);
        assert(list =~= rest.push(list.last()));
        assert forall|other: Seq<char>| other != token implies (#[trigger] without(
            list,
            token,
        ).contains(other) <==> list.contains(other)) by {
            lemma_contains_push(rest, list.last(), other);
            lemma_contains_push(kept, list.last(), other);
        }
        lemma_contains_push(kept, list.last(), token);
        lemma_contains_push(rest, list.last(), token);
        if !list.contains(token) {
            assert(kept == rest);
            assert(without(list, token) =~= list);
        }
    }
}

/// A list without repeated tokens has none after a token was taken away.
pub proof fn lemma_without_distinct(list: Seq<Seq<char>>, token: Seq<char>)
    requires
        list.no_duplicates(),
    ensures
        without(list, token).no_duplicates(),
    decreases list.len(),
{
    if list.len() > 0 {
        let rest = list.drop_last();
        lemma_without_distinct(rest, token);
        lemma_without(rest, token);
        if list.last() != token {
            if rest.contains(list.last()) {
                let i = choose|i: int| 0 <= i < rest.len() && rest[i] == list.last();
                assert(list[i] == list[list.len() - 1]);
            }
            lemma_push_distinct(without(rest, token), list.last());
        }
    }
}

/// A list without repeated tokens has none after a token that it did not
/// hold was appended.
pub proof fn lemma_push_distinct(list: Seq<Seq<char>>, token: Seq<char>)
    requires
        list.no_duplicates(),
        !list.contains(token),
    ensures
        list.push(token).no_duplicates(),
{
    let longer = list.push(token);
    assert forall|i: int, j: int|
        0 <= i < longer.len() && 0 <= j < longer.len() && i != j implies longer[i] != longer[j] by {
        if i < list.len() && j < list.len() {
            assert(list[i] != list[j]);
        } else if i < list.len() {
            assert(list.contains(list[i]));
        } else {
            assert(list.contains(list[j]));
        }
    }
}

/// What a list holds after one more item was appended.
pub proof fn lemma_contains_push(list: Seq<Seq<char>>, last: Seq<char>, item: Seq<char>)
    ensures
        list.push(last).contains(item) <==> (list.contains(item) || item == last),
{
    let longer = list.push(last);
    if list.contains(item) {
        let i = choose|i: int| 0 <= i < list.len() && list[i] == item;
        assert(longer[i] == item);
    }
    if item == last {
        assert(longer[list.len() as int] == item);
    }
    if longer.contains(item) {
        let i = choose|i: int| 0 <= i < longer.len() && longer[i] == item;
        if i < list.len() {
            assert(list[i] == item);
        }
    }
}

/// The token of the session with the number `n`: its decimal text.
pub open spec fn token_of(n: u32) -> Seq<char> {
    decimal_digits(n as nat)
}

/// The number after `n`; the largest number is followed by zero.
pub open spec fn next_number(n: u32) -> u32 {
    if n == u32::MAX {
        0
    } else {
        (n + 1) as u32
    }
}

/// The number that stands `steps` behind `n`, going round in the same way.
pub open spec fn number_after(n: u32, steps: nat) -> u32 {
    ((n + steps) % 0x1_0000_0000) as u32
}

/// The first number from `n` on whose token is not in `sessions`, where
/// one is found among `n` and the `tries` numbers behind it; the last of
/// them otherwise.
pub open spec fn free_number(sessions: Seq<Seq<char>>, n: u32, tries: nat) -> u32
    decreases tries,
{
    if tries == 0 || !sessions.contains(token_of(n)) {
        n
    } else {
        free_number(sessions, next_number(n), (tries - 1) as nat)
    }
}

/// The number of a new session for which `drawn` was drawn: `drawn` itself
/// unless a session has its token, else the first number behind it whose
/// token no session has.
pub open spec fn fresh_number(sessions: Seq<Seq<char>>, drawn: u32) -> u32 {
    free_number(sessions, drawn, sessions.len())
}

/// Two numbers that differ have tokens that differ.
pub proof fn lemma_tokens_differ(a: u32, b: u32)
    requires
        a != b,
    ensures
        token_of(a) != token_of(b),
{
    lemma_decimal_round_trip(a as nat);
    lemma_decimal_round_trip(b as nat);
}

/// A list that holds each of some tokens that all differ has as many items
/// as there are such tokens, or more.
proof fn lemma_pigeonhole(tokens: Seq<Seq<char>>, list: Seq<Seq<char>>)
    requires
        forall|i: int, j: int| 0 <= i < j < tokens.len() ==> tokens[i] != tokens[j],
        forall|i: int| 0 <= i < tokens.len() ==> list.contains(#[trigger] tokens[i]),
    ensures
        tokens.len() <= list.len(),
    decreases tokens.len(),
{
    if tokens.len() > 0 {
        let last = tokens.last();
        assert(list.contains(tokens[tokens.len() - 1]));
        let at = choose|at: int| 0 <= at < list.len() && list[at] == last;
        let rest = list.remove(at);
        let fewer = tokens.drop_last();
        assert forall|i: int| 0 <= i < fewer.len() implies rest.contains(#[trigger] fewer[i]) by {
            assert(list.contains(tokens[i]));
            let p = choose|p: int| 0 <= p < list.len() && list[p] == tokens[i];
            assert(tokens[i] != last);
            if p < at {
                assert(rest[p] == fewer[i]);
            } else {
                assert(rest[p - 1] == fewer[i]);
            }
        }
        lemma_pigeonhole(fewer, rest);
    }
}

/// The tokens of `count` numbers from `drawn` on.
spec fn tokens_from(drawn: u32, count: nat) -> Seq<Seq<char>> {
    Seq::new(count, |i: int| token_of(number_after(drawn, i as nat)))
}

/// The search for a free number finds one, once the `done` numbers from
/// `drawn` on were found taken, if the numbers that are left to try and
/// those that were tried are as many as there are sessions.
proof fn lemma_free_number(sessions: Seq<Seq<char>>, drawn: u32, done: nat, tries: nat)
    requires
        done + tries == sessions.len(),
        sessions.len() < 0x1_0000_0000,
        forall|i: int| 0 <= i < done ==> sessions.contains(#[trigger] tokens_from(drawn, done)[i]),
    ensures
        !sessions.contains(token_of(free_number(sessions, number_after(drawn, done), tries))),
    decreases tries,
{
    let n = number_after(drawn, done);
    let tokens = tokens_from(drawn, done + 1);
    if sessions.contains(token_of(n)) {
        assert forall|i: int| 0 <= i < done + 1 implies sessions.contains(#[trigger] tokens[i]) by {
            if i < done {
                assert(tokens[i] == tokens_from(drawn, done)[i]);
            }
        }
        if tries == 0 {
            assert forall|i: int, j: int| 0 <= i < j < tokens.len() implies tokens[i] != tokens[j] by {
                lemma_tokens_differ(number_after(drawn, i as nat), number_after(drawn, j as nat));
            }
            lemma_pigeonhole(tokens, sessions);
        } else {
            assert(next_number(n) == number_after(drawn, done + 1));
            lemma_free_number(sessions, drawn, done + 1, (tries - 1) as nat);
        }
    }
}

/// The number of a new session is new: no session has its token. It is the
/// number that was drawn wherever no session has the token of that one.
/// (There are as many numbers as a `u32` has values; with that many
/// sessions none would be left.)
pub proof fn lemma_fresh_number(sessions: Seq<Seq<char>>, drawn: u32)
    requires
        sessions.len() < 0x1_0000_0000,
    ensures
        !sessions.contains(token_of(fresh_number(sessions, drawn))),
        !sessions.contains(token_of(drawn)) ==> fresh_number(sessions, drawn) == drawn,
{
    assert(number_after(drawn, 0) == drawn);
    lemma_free_number(sessions, drawn, 0, sessions.len());
}

impl View for SessionStore {
    type V = Seq<Seq<char>>;

    closed spec fn view(&self) -> Seq<Seq<char>> {
        texts(self.tokens@)
    }
}

impl SessionStore {
    /// A store without sessions.
    pub fn new() -> (r: Self)
        ensures
            r@ == Seq::<Seq<char>>::empty(),
    {
        let r = SessionStore { tokens: Vec::new() };
        assert(r@ =~= Seq::<Seq<char>>::empty());
        r
    }

    /// Whether `token` is the token of a valid session.
    pub fn is_valid(&self, token: &String) -> (r: bool)
        ensures
            r == self@.contains(token@),
    {
        let mut i: usize = 0;
        while i < self.tokens.len()
            invariant
                i <= self.tokens.len(),
                forall|k: int| 0 <= k < i ==> self@[k] != token@,
            decreases self.tokens.len() - i,
        {
            if self.tokens[i] == *token {
                assert(self@[i as int] == token@);
                return true;
            }
            i += 1;
        }
        false
    }

    /// Opens a session for a login for which `drawn` was drawn, and returns
    /// the number of the session: `fresh_number` says which it is. The token
    /// of the session is the decimal text of that number.
    pub fn create(&mut self, drawn: u32) -> (number: u32)
        ensures
            number == fresh_number(old(self)@, drawn),
            final(self)@ == old(self)@.push(token_of(number)),
    {
        let mut number = drawn;
        let mut tries = self.tokens.len();
        loop
            invariant
                *self == *old(self),
                free_number(self@, number, tries as nat) == fresh_number(self@, drawn),
            decreases tries,
        {
            let token = text_of(decimal(number as u64).as_slice());
            if tries == 0 || !self.is_valid(&token) {
                self.tokens.push(token);
                assert(self@ =~= old(self)@.push(token_of(number)));
                return number;
            }
            number = if number == u32::MAX {
                0
            } else {
                number + 1
            };
            tries -= 1;
        }
    }

    /// Closes every session whose token is `token`.
    pub fn remove(&mut self, token: &String)
        ensures
            final(self)@ == without(old(self)@, token@),
    {
        let mut kept: Vec<String> = Vec::new();
        let mut i: usize = 0;
        assert(self@.subrange(0, 0) =~= Seq::<Seq<char>>::empty());
        assert(texts(kept@) =~= Seq::<Seq<char>>::empty());
        while i < self.tokens.len()
            invariant
                i <= self.tokens.len(),
                texts(kept@) == without(self@.subrange(0, i as int), token@),
            decreases self.tokens.len() - i,
        {
            let ghost next = self@.subrange(0, i + 1);
            assert(next.drop_last() =~= self@.subrange(0, i as int));
            assert(next.last() == self.tokens@[i as int]@);
            if self.tokens[i] != *token {
                let ghost before = texts(kept@);
                kept.push(self.tokens[i].clone());
                assert(texts(kept@) =~= before.push(next.last()));
            }
            i += 1;
        }
        assert(self@.subrange(0, self@.len() as int) =~= self@);
        self.tokens = kept;
    }

    /// Closes every session.
    pub fn clear(&mut self)
        ensures
            final(self)@ == Seq::<Seq<char>>::empty(),
    {
        self.tokens.clear();
        assert(self@ =~= Seq::<Seq<char>>::empty());
    }
}

} // verus!
