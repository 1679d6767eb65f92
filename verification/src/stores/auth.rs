//! The authentication store: the configured credential pair and the map
//! from live token strings to their expiry instants.
//!
//! All state of the authentication core lives here. The store is specified
//! against a mathematical map from token character sequences to expiry
//! instants (milliseconds since the epoch). Tokens are created only by
//! [`AuthStore::create_token`], which guarantees the returned token differs
//! from every token currently in the map; they disappear either by explicit
//! revocation or lazily, when a validity check finds them expired.

use crate::utils::text::str_eq;
use crate::utils::{create_random_string, spec_token_charset, token_charset};
use vstd::pervasive::unreached;
use vstd::prelude::*;
use vstd::set_lib::lemma_len_subset;

verus! {

/// Milliseconds before an issued token expires: five hours.
pub const TOKEN_EXPIRY_MILLIS: u64 = 1000 * 60 * 60 * 5;

/// The number of characters in a generated token.
pub const TOKEN_LENGTH: usize = 48;

/// How many random candidates issuance draws before it falls back to a
/// deterministic search for a free token.
const TOKEN_RETRY_LIMIT: usize = 64;

/// The username assumed when none is configured.
pub fn default_username() -> (name: &'static str)
    ensures
        name@ == "admin"@,
{
    "admin"
}

/// The password assumed when none is configured.
pub fn default_password() -> (word: &'static str)
    ensures
        word@ == "admin"@,
{
    "admin"
}

/// A token string paired with its expiry instant, in milliseconds since
/// the epoch.
pub struct TokenData {
    pub token: String,
    pub expiry_time: u64,
}

/// The map a sequence of token records denotes: later records override
/// earlier ones, though the store never keeps two records of one token.
pub open spec fn map_of(records: Seq<TokenData>) -> Map<Seq<char>, u64>
    decreases records.len(),
{
    if records.len() == 0 {
        Map::empty()
    } else {
        map_of(records.drop_last()).insert(records.last().token@, records.last().expiry_time)
    }
}

/// No token string occurs in two records.
pub open spec fn tokens_unique(records: Seq<TokenData>) -> bool {
    forall|i: int, j: int|
        0 <= i < j < records.len() ==> (#[trigger] records[i]).token@ != (
        #[trigger] records[j]).token@
}

/// Some record holds the token `t`.
pub open spec fn has_token(records: Seq<TokenData>, t: Seq<char>) -> bool {
    exists|i: int| 0 <= i < records.len() && (#[trigger] records[i]).token@ == t
}

/// A key is in the denoted map exactly when some record holds it.
proof fn lemma_map_of_dom(records: Seq<TokenData>)
    ensures
        forall|t: Seq<char>|
            #[trigger] map_of(records).contains_key(t) <==> has_token(records, t),
    decreases records.len(),
{
    if records.len() > 0 {
        let rest = records.drop_last();
        lemma_map_of_dom(rest);
        assert forall|t: Seq<char>| #[trigger] map_of(records).contains_key(t) implies has_token(
            records,
            t,
        ) by {
            if t == records.last().token@ {
                assert((records[records.len() - 1]).token@ == t);
            } else {
                assert(map_of(rest).contains_key(t));
                assert(has_token(rest, t));
                let i = choose|i: int| 0 <= i < rest.len() && (#[trigger] rest[i]).token@ == t;
                assert((records[i]).token@ == t);
            }
        }
        assert forall|t: Seq<char>| has_token(records, t) implies map_of(records).contains_key(
            t,
        ) by {
            let i = choose|i: int| 0 <= i < records.len() && (#[trigger] records[i]).token@ == t;
            if i < records.len() - 1 {
                assert((rest[i]).token@ == t);
                assert(has_token(rest, t));
            }
        }
    }
}

/// Under uniqueness, each record's token maps to that record's expiry.
proof fn lemma_map_of_value(records: Seq<TokenData>, i: int)
    requires
        tokens_unique(records),
        0 <= i < records.len(),
    ensures
        map_of(records).contains_key(records[i].token@),
        map_of(records)[records[i].token@] == records[i].expiry_time,
    decreases records.len(),
{
    lemma_map_of_dom(records);
    if i == records.len() - 1 {
    } else {
        lemma_map_of_value(records.drop_last(), i);
        assert(records.drop_last()[i] == records[i]);
        assert(records[i].token@ != records.last().token@);
    }
}

/// Removing the record at `i` removes exactly that token from the map.
proof fn lemma_map_of_remove(records: Seq<TokenData>, i: int)
    requires
        tokens_unique(records),
        0 <= i < records.len(),
    ensures
        map_of(records.remove(i)) == map_of(records).remove(records[i].token@),
    decreases records.len(),
{
    let shorter = records.remove(i);
    if i == records.len() - 1 {
        assert(shorter =~= records.drop_last());
        lemma_map_of_dom(records.drop_last());
        assert(!has_token(records.drop_last(), records.last().token@));
        assert(map_of(records.drop_last()) =~= map_of(records).remove(records[i].token@));
    } else {
        assert(shorter.drop_last() =~= records.drop_last().remove(i));
        assert(shorter.last() == records.last());
        lemma_map_of_remove(records.drop_last(), i);
        assert(records.drop_last()[i] == records[i]);
        assert(map_of(shorter) =~= map_of(records).remove(records[i].token@));
    }
}

/// Appending a record inserts its token into the map.
proof fn lemma_map_of_push(records: Seq<TokenData>, record: TokenData)
    ensures
        map_of(records.push(record)) == map_of(records).insert(record.token@, record.expiry_time),
{
    assert(records.push(record).drop_last() =~= records);
}

/// The denoted map has finitely many keys, at most one per record.
proof fn lemma_map_of_dom_len(records: Seq<TokenData>)
    ensures
        map_of(records).dom().finite(),
        map_of(records).dom().len() <= records.len(),
    decreases records.len(),
{
    if records.len() > 0 {
        lemma_map_of_dom_len(records.drop_last());
    }
}

/// Struct for storing the configured credentials and the map of live
/// tokens to their expiry instants.
pub struct AuthStore {
    username: String,
    password: String,
    tokens: Vec<TokenData>,
}

impl AuthStore {
    /// The configured username.
    pub closed spec fn spec_username(&self) -> Seq<char> {
        self.username@
    }

    /// The configured password.
    pub closed spec fn spec_password(&self) -> Seq<char> {
        self.password@
    }

    /// The map of live tokens to expiry instants.
    pub closed spec fn token_map(&self) -> Map<Seq<char>, u64> {
        map_of(self.tokens@)
    }

    /// The store never keeps two records of one token.
    pub closed spec fn wf(&self) -> bool {
        tokens_unique(self.tokens@)
    }

    /// Both stores hold the same configured credentials.
    pub open spec fn same_credentials(&self, other: &AuthStore) -> bool {
        self.spec_username() == other.spec_username() && self.spec_password()
            == other.spec_password()
    }

    /// Creates a store from the configured credentials; a missing value
    /// falls back to the fixed default. The store starts with no tokens.
    pub fn new(username: Option<String>, password: Option<String>) -> (store: AuthStore)
        ensures
            store.wf(),
            store.token_map() == Map::<Seq<char>, u64>::empty(),
            store.spec_username() == match username {
                Some(u) => u@,
                None => "admin"@,
            },
            store.spec_password() == match password {
                Some(p) => p@,
                None => "admin"@,
            },
    {
        let username = match username {
            Some(u) => u,
            None => String::from_str(default_username()),
        };
        let password = match password {
            Some(p) => p,
            None => String::from_str(default_password()),
        };
        AuthStore { username, password, tokens: Vec::new() }
    }

    /// Checks whether the provided pair matches the configured credentials:
    /// exact equality on both fields.
    pub fn is_credentials(&self, username: &String, password: &String) -> (matched: bool)
        ensures
            matched == (username@ == self.spec_username() && password@ == self.spec_password()),
    {
        self.username.eq(username) && self.password.eq(password)
    }

    /// The index of the record holding `token`, if any.
    fn find_token(&self, token: &str) -> (found: Option<usize>)
        ensures
            match found {
                Some(i) => i < self.tokens@.len() && self.tokens@[i as int].token@ == token@,
                None => !has_token(self.tokens@, token@),
            },
    {
        let record_count = self.tokens.len();
        for i in 0..record_count
            invariant
                record_count == self.tokens@.len(),
                forall|j: int| 0 <= j < i ==> (#[trigger] self.tokens@[j]).token@ != token@,
        {
            if str_eq(self.tokens[i].token.as_str(), token) {
                return Some(i);
            }
        }
        None
    }

    /// Retrieves the expiry instant recorded for `token`, without touching
    /// the store: absent tokens and expired-but-unremoved tokens are not
    /// distinguished from one another by any eviction here.
    pub fn get_token_expiry(&self, token: &str) -> (expiry: Option<u64>)
        requires
            self.wf(),
        ensures
            expiry == if self.token_map().contains_key(token@) {
                Some(self.token_map()[token@])
            } else {
                None::<u64>
            },
    {
        proof {
            lemma_map_of_dom(self.tokens@);
        }
        match self.find_token(token) {
            Some(i) => {
                proof {
                    lemma_map_of_value(self.tokens@, i as int);
                }
                Some(self.tokens[i].expiry_time)
            },
            None => None,
        }
    }

    /// Removes `token` from the live map. Revoking a token that is not
    /// present is a no-op, not an error, and touches no other token.
    pub fn remove_token(&mut self, token: &str)
        requires
            old(self).wf(),
        ensures
            final(self).wf(),
            final(self).token_map() == old(self).token_map().remove(token@),
            final(self).same_credentials(old(self)),
    {
        proof {
            lemma_map_of_dom(self.tokens@);
        }
        match self.find_token(token) {
            Some(i) => {
                proof {
                    lemma_map_of_remove(self.tokens@, i as int);
                    let shorter = self.tokens@.remove(i as int);
                    assert forall|a: int, b: int| 0 <= a < b < shorter.len() implies (
                    #[trigger] shorter[a]).token@ != (#[trigger] shorter[b]).token@ by {
                        let old_a = if a < i { a } else { a + 1 };
                        let old_b = if b < i { b } else { b + 1 };
                        assert(shorter[a] == self.tokens@[old_a]);
                        assert(shorter[b] == self.tokens@[old_b]);
                    }
                }
                self.tokens.remove(i);
            },
            None => {
                proof {
                    assert(self.token_map() =~= self.token_map().remove(token@));
                }
            },
        }
    }

    /// Adds a record for a token that is not yet present.
    fn add_token(&mut self, token: String, expiry_time: u64)
        requires
            old(self).wf(),
            !old(self).token_map().contains_key(token@),
        ensures
            final(self).wf(),
            final(self).token_map() == old(self).token_map().insert(token@, expiry_time),
            final(self).same_credentials(old(self)),
    {
        proof {
            lemma_map_of_dom(self.tokens@);
            lemma_map_of_push(self.tokens@, TokenData { token: token, expiry_time });
        }
        let ghost before = self.tokens@;
        self.tokens.push(TokenData { token, expiry_time });
        proof {
            assert forall|a: int, b: int| 0 <= a < b < self.tokens@.len() implies (
            #[trigger] self.tokens@[a]).token@ != (#[trigger] self.tokens@[b]).token@ by {
                if b == self.tokens@.len() - 1 {
                    assert(before[a].token@ == self.tokens@[a].token@);
                }
            }
        }
    }

    /// Checks whether `token` is currently valid: present and not yet at
    /// its expiry instant. A token found at or past its expiry is removed
    /// here, as a side effect of the check (lazy eviction); the check then
    /// reports it invalid, exactly as it reports an absent token.
    pub fn check_token(&mut self, token: &str, now: u64) -> (valid: bool)
        requires
            old(self).wf(),
        ensures
            final(self).wf(),
            valid == token_valid(old(self).token_map(), token@, now),
            final(self).token_map() == check_post(old(self).token_map(), token@, now),
            final(self).same_credentials(old(self)),
    {
        let expiry_time = self.get_token_expiry(token);
        match expiry_time {
            Some(expiry_time) => {
                if now >= expiry_time {
                    self.remove_token(token);
                    false
                } else {
                    proof {
                        assert(self.token_map() =~= check_post(self.token_map(), token@, now));
                    }
                    true
                }
            },
            None => {
                proof {
                    assert(self.token_map() =~= check_post(self.token_map(), token@, now));
                }
                false
            },
        }
    }

    /// Finds a token string that is free in the store by walking the
    /// decimal spellings of the counters `0..=len`: the store holds `len`
    /// tokens, and the spellings are pairwise distinct, so one of these
    /// `len + 1` candidates must be free.
    fn fresh_token(&self) -> (token: String)
        requires
            self.wf(),
        ensures
            !self.token_map().contains_key(token@),
            token@.len() == TOKEN_LENGTH,
            forall|i: int|
                0 <= i < token@.len() ==> spec_token_charset().contains(#[trigger] token@[i]),
    {
        let record_count = self.tokens.len();
        let ghost dom = self.token_map().dom();
        proof {
            lemma_map_of_dom_len(self.tokens@);
        }
        let bound: u128 = record_count as u128 + 1;
        let mut c: u128 = 0;
        while c < bound
            invariant
                self.wf(),
                bound == self.tokens@.len() + 1,
                dom == self.token_map().dom(),
                dom.finite(),
                dom.len() <= self.tokens@.len(),
                c <= bound,
                forall|c2: u128|
                    c2 < c ==> dom.contains(
                        #[trigger] counter_token(c2 as nat, TOKEN_LENGTH as nat),
                    ),
            decreases bound - c,
        {
            let candidate = counter_token_string(c);
            proof {
                lemma_counter_token_len(c as nat, TOKEN_LENGTH as nat);
            }
            if self.get_token_expiry(candidate.as_str()).is_none() {
                proof {
                    lemma_counter_token_chars(c as nat, TOKEN_LENGTH as nat);
                }
                return candidate;
            }
            c = c + 1;
        }
        proof {
            lemma_pow10_exceeds_u64();
            assert(bound as nat <= pow10(TOKEN_LENGTH as nat));
            lemma_counter_tokens_card(bound as nat);
            let candidates = counter_tokens_set(bound as nat);
            assert forall|t: Seq<char>| candidates.contains(t) implies dom.contains(t) by {
                let c3 = choose|c3: nat|
                    c3 < bound as nat && t == #[trigger] counter_token(c3, TOKEN_LENGTH as nat);
                assert(dom.contains(counter_token((c3 as u128) as nat, TOKEN_LENGTH as nat)));
            }
            lemma_len_subset(candidates, dom);
            assert(false);
        }
        unreached()
    }

    /// Creates a new token that no current record holds, inserts it with
    /// the expiry instant `now` plus the token lifetime, and returns the
    /// new record. Candidates are drawn at random from the token alphabet
    /// and discarded while they collide with a live token; the returned
    /// token is guaranteed fresh by construction, not by chance.
    pub fn create_token(&mut self, now: u64) -> (data: TokenData)
        requires
            old(self).wf(),
            now + TOKEN_EXPIRY_MILLIS <= u64::MAX,
        ensures
            final(self).wf(),
            data.expiry_time == now + TOKEN_EXPIRY_MILLIS,
            data.token@.len() == TOKEN_LENGTH,
            forall|i: int|
                0 <= i < data.token@.len() ==> spec_token_charset().contains(
                    #[trigger] data.token@[i],
                ),
            issue_step(old(self).token_map(), final(self).token_map(), data.token@, now),
            final(self).same_credentials(old(self)),
    {
        let expiry_time = now + TOKEN_EXPIRY_MILLIS;
        let charset = token_charset();
        for _attempt in 0..TOKEN_RETRY_LIMIT
            invariant
                *self == *old(self),
                self.wf(),
                charset@ == spec_token_charset(),
                charset@.len() == 63,
                expiry_time == now + TOKEN_EXPIRY_MILLIS,
        {
            let candidate = create_random_string(charset, TOKEN_LENGTH);
            if self.get_token_expiry(candidate.as_str()).is_none() {
                let token = candidate.clone();
                self.add_token(candidate, expiry_time);
                return TokenData { token, expiry_time };
            }
        }
        let token = self.fresh_token();
        let stored = token.clone();
        self.add_token(stored, expiry_time);
        TokenData { token, expiry_time }
    }
}

/// The character standing for one decimal digit.
spec fn digit_char(d: nat) -> char {
    if d == 0 {
        '0'
    } else if d == 1 {
        '1'
    } else if d == 2 {
        '2'
    } else if d == 3 {
        '3'
    } else if d == 4 {
        '4'
    } else if d == 5 {
        '5'
    } else if d == 6 {
        '6'
    } else if d == 7 {
        '7'
    } else if d == 8 {
        '8'
    } else {
        '9'
    }
}

/// The `k`-character decimal spelling of the counter `c`, least
/// significant digit first, padded with zeros.
spec fn counter_token(c: nat, k: nat) -> Seq<char>
    decreases k,
{
    if k == 0 {
        Seq::empty()
    } else {
        seq![digit_char(c % 10)] + counter_token(c / 10, (k - 1) as nat)
    }
}

/// Powers of ten.
spec fn pow10(k: nat) -> nat
    decreases k,
{
    if k == 0 {
        1
    } else {
        10 * pow10((k - 1) as nat)
    }
}

proof fn lemma_pow10_pos(k: nat)
    ensures
        pow10(k) >= 1,
    decreases k,
{
    if k > 0 {
        lemma_pow10_pos((k - 1) as nat);
    }
}

proof fn lemma_pow10_monotone(a: nat, b: nat)
    requires
        a <= b,
    ensures
        pow10(a) <= pow10(b),
    decreases b - a,
{
    if a < b {
        lemma_pow10_monotone(a, (b - 1) as nat);
        lemma_pow10_pos((b - 1) as nat);
    }
}

/// Counters that fit in a machine word are spelled by far fewer digits
/// than a token holds.
proof fn lemma_pow10_exceeds_u64()
    ensures
        pow10(TOKEN_LENGTH as nat) > u64::MAX,
{
    assert(pow10(20) == 100_000_000_000_000_000_000) by {
        reveal_with_fuel(pow10, 21);
    }
    lemma_pow10_monotone(20, TOKEN_LENGTH as nat);
}

proof fn lemma_counter_token_len(c: nat, k: nat)
    ensures
        counter_token(c, k).len() == k,
    decreases k,
{
    if k > 0 {
        lemma_counter_token_len(c / 10, (k - 1) as nat);
    }
}

/// Every character of a counter spelling is a digit, and digits belong to
/// the token alphabet.
proof fn lemma_digit_char_in_charset(d: nat)
    requires
        d < 10,
    ensures
        spec_token_charset().contains(digit_char(d)),
{
    reveal_strlit("abcdefghijklmnopqrstuvwxyzABCDEFGHIJKLMNOPQRSTUVWXYZ0123456789-");
    let cs = spec_token_charset();
    if d == 0 {
        assert(cs[52] == '0');
    } else if d == 1 {
        assert(cs[53] == '1');
    } else if d == 2 {
        assert(cs[54] == '2');
    } else if d == 3 {
        assert(cs[55] == '3');
    } else if d == 4 {
        assert(cs[56] == '4');
    } else if d == 5 {
        assert(cs[57] == '5');
    } else if d == 6 {
        assert(cs[58] == '6');
    } else if d == 7 {
        assert(cs[59] == '7');
    } else if d == 8 {
        assert(cs[60] == '8');
    } else {
        assert(cs[61] == '9');
    }
}

proof fn lemma_counter_token_chars(c: nat, k: nat)
    ensures
        forall|i: int|
            0 <= i < counter_token(c, k).len() ==> spec_token_charset().contains(
                #[trigger] counter_token(c, k)[i],
            ),
    decreases k,
{
    if k > 0 {
        let rest = counter_token(c / 10, (k - 1) as nat);
        lemma_counter_token_chars(c / 10, (k - 1) as nat);
        lemma_counter_token_len(c / 10, (k - 1) as nat);
        lemma_digit_char_in_charset(c % 10);
        assert forall|i: int|
            0 <= i < counter_token(c, k).len() implies spec_token_charset().contains(
            #[trigger] counter_token(c, k)[i],
        ) by {
            if i == 0 {
                assert(counter_token(c, k)[0] == digit_char(c % 10));
            } else {
                assert(counter_token(c, k)[i] == rest[i - 1]);
            }
        }
    }
}

/// Distinct counters below `pow10(k)` spell distinct tokens.
proof fn lemma_counter_token_injective(c1: nat, c2: nat, k: nat)
    requires
        c1 < pow10(k),
        c2 < pow10(k),
        counter_token(c1, k) == counter_token(c2, k),
    ensures
        c1 == c2,
    decreases k,
{
    if k == 0 {
    } else {
        let s1 = counter_token(c1, k);
        let s2 = counter_token(c2, k);
        let r1 = counter_token(c1 / 10, (k - 1) as nat);
        let r2 = counter_token(c2 / 10, (k - 1) as nat);
        lemma_counter_token_len(c1, k);
        lemma_counter_token_len(c2, k);
        lemma_counter_token_len(c1 / 10, (k - 1) as nat);
        lemma_counter_token_len(c2 / 10, (k - 1) as nat);
        assert(s1[0] == digit_char(c1 % 10));
        assert(s2[0] == digit_char(c2 % 10));
        assert(c1 % 10 == c2 % 10);
        assert(r1 =~= r2) by {
            assert forall|i: int| 0 <= i < r1.len() implies r1[i] == r2[i] by {
                assert(s1[i + 1] == r1[i]);
                assert(s2[i + 1] == r2[i]);
            }
        }
        assert(c1 / 10 < pow10((k - 1) as nat)) by (nonlinear_arith)
            requires
                c1 < 10 * pow10((k - 1) as nat),
        ;
        assert(c2 / 10 < pow10((k - 1) as nat)) by (nonlinear_arith)
            requires
                c2 < 10 * pow10((k - 1) as nat),
        ;
        lemma_counter_token_injective(c1 / 10, c2 / 10, (k - 1) as nat);
        assert(c1 == 10 * (c1 / 10) + c1 % 10) by (nonlinear_arith);
        assert(c2 == 10 * (c2 / 10) + c2 % 10) by (nonlinear_arith);
    }
}

/// The tokens spelled by the counters below `k`.
spec fn counter_tokens_set(k: nat) -> Set<Seq<char>> {
    Set::new(
        |t: Seq<char>|
            exists|c: nat| c < k && t == #[trigger] counter_token(c, TOKEN_LENGTH as nat),
    )
}

/// There are exactly `k` such tokens: the spellings are pairwise distinct.
proof fn lemma_counter_tokens_card(k: nat)
    requires
        k <= pow10(TOKEN_LENGTH as nat),
    ensures
        counter_tokens_set(k).finite(),
        counter_tokens_set(k).len() == k,
    decreases k,
{
    if k == 0 {
        assert(counter_tokens_set(0) =~= Set::empty());
    } else {
        let prev = counter_tokens_set((k - 1) as nat);
        let newest = counter_token((k - 1) as nat, TOKEN_LENGTH as nat);
        lemma_counter_tokens_card((k - 1) as nat);
        assert(!prev.contains(newest)) by {
            if prev.contains(newest) {
                let c = choose|c: nat|
                    c < k - 1 && newest == #[trigger] counter_token(c, TOKEN_LENGTH as nat);
                lemma_counter_token_injective(c, (k - 1) as nat, TOKEN_LENGTH as nat);
            }
        }
        assert(counter_tokens_set(k) =~= prev.insert(newest));
    }
}

/// Builds the `TOKEN_LENGTH`-character decimal spelling of `c`.
fn counter_token_string(c: u128) -> (token: String)
    ensures
        token@ == counter_token(c as nat, TOKEN_LENGTH as nat),
{
    let digits = "0123456789";
    proof {
        reveal_strlit("0123456789");
    }
    let mut token = String::new();
    let mut v = c;
    for k in 0..TOKEN_LENGTH
        invariant
            digits@ == "0123456789"@,
            digits@.len() == 10,
            token@.len() == k,
            token@ + counter_token(v as nat, (TOKEN_LENGTH - k) as nat) == counter_token(
                c as nat,
                TOKEN_LENGTH as nat,
            ),
    {
        let d = (v % 10) as usize;
        let piece = digits.substring_char(d, d + 1);
        proof {
            reveal_strlit("0123456789");
            assert(digits@[d as int] == digit_char(d as nat)) by {
                if d == 0 {
                    assert(digits@[0] == '0');
                } else if d == 1 {
                    assert(digits@[1] == '1');
                } else if d == 2 {
                    assert(digits@[2] == '2');
                } else if d == 3 {
                    assert(digits@[3] == '3');
                } else if d == 4 {
                    assert(digits@[4] == '4');
                } else if d == 5 {
                    assert(digits@[5] == '5');
                } else if d == 6 {
                    assert(digits@[6] == '6');
                } else if d == 7 {
                    assert(digits@[7] == '7');
                } else if d == 8 {
                    assert(digits@[8] == '8');
                } else {
                    assert(digits@[9] == '9');
                }
            }
            assert(piece@ =~= seq![digit_char(d as nat)]);
            let remaining = (TOKEN_LENGTH - k) as nat;
            assert(counter_token(v as nat, remaining) == seq![digit_char((v as nat) % 10)]
                + counter_token((v as nat) / 10, (remaining - 1) as nat));
            assert((token@ + piece@) + counter_token((v as nat) / 10, (remaining - 1) as nat)
                =~= token@ + counter_token(v as nat, remaining));
            lemma_counter_token_len(v as nat, remaining);
        }
        token.append(piece);
        v = v / 10;
    }
    proof {
        assert(token@ + counter_token(v as nat, 0) =~= token@);
    }
    token
}

/// A token is valid for `m` at instant `now` when it is present and `now`
/// lies strictly before its expiry instant.
pub open spec fn token_valid(m: Map<Seq<char>, u64>, token: Seq<char>, now: u64) -> bool {
    m.contains_key(token) && now < m[token]
}

/// What one issuance at instant `now` does: the issued token was free
/// before, and afterwards it maps to `now` plus the token lifetime.
/// Nothing else changes.
pub open spec fn issue_step(
    pre: Map<Seq<char>, u64>,
    post: Map<Seq<char>, u64>,
    token: Seq<char>,
    now: u64,
) -> bool {
    &&& !pre.contains_key(token)
    &&& post == pre.insert(token, (now + TOKEN_EXPIRY_MILLIS) as u64)
}

/// The map left behind by a validity check: an expired token is evicted,
/// everything else is untouched.
pub open spec fn check_post(m: Map<Seq<char>, u64>, token: Seq<char>, now: u64) -> Map<
    Seq<char>,
    u64,
> {
    if m.contains_key(token) && now >= m[token] {
        m.remove(token)
    } else {
        m
    }
}

/// Law: two successive issuances return distinct tokens. The first token
/// is still live when the second is issued, and an issued token was free
/// at issuance, so the two can never coincide.
pub proof fn lemma_issued_tokens_distinct(
    m0: Map<Seq<char>, u64>,
    m1: Map<Seq<char>, u64>,
    m2: Map<Seq<char>, u64>,
    token1: Seq<char>,
    token2: Seq<char>,
    now1: u64,
    now2: u64,
)
    requires
        issue_step(m0, m1, token1, now1),
        issue_step(m1, m2, token2, now2),
    ensures
        token1 != token2,
{
}

/// Law: a token is valid from the instant it is issued up to, and not
/// including, the instant five hours later; at or after that instant it
/// is invalid.
pub proof fn lemma_token_validity_window(
    m0: Map<Seq<char>, u64>,
    m1: Map<Seq<char>, u64>,
    token: Seq<char>,
    now: u64,
    later: u64,
)
    requires
        issue_step(m0, m1, token, now),
        now + TOKEN_EXPIRY_MILLIS <= u64::MAX,
    ensures
        token_valid(m1, token, now),
        token_valid(m1, token, later) <==> later < now + TOKEN_EXPIRY_MILLIS,
{
}

/// Law: a validity check at or past a token's expiry instant reports the
/// token invalid and leaves it absent, so a later expiry lookup on the
/// same token finds nothing.
pub proof fn lemma_expired_check_evicts(m: Map<Seq<char>, u64>, token: Seq<char>, now: u64)
    requires
        m.contains_key(token),
        now >= m[token],
    ensures
        !token_valid(m, token, now),
        !check_post(m, token, now).contains_key(token),
{
}

/// Law: revoking a token that is not present changes nothing.
pub proof fn lemma_revoke_absent_noop(m: Map<Seq<char>, u64>, token: Seq<char>)
    requires
        !m.contains_key(token),
    ensures
        m.remove(token) == m,
{
    assert(m.remove(token) =~= m);
}

/// Law: revoking one token leaves every other token, and its expiry,
/// exactly as it was.
pub proof fn lemma_revoke_leaves_others(
    m: Map<Seq<char>, u64>,
    token: Seq<char>,
    other: Seq<char>,
)
    requires
        token != other,
    ensures
        m.remove(token).contains_key(other) == m.contains_key(other),
        m.contains_key(other) ==> m.remove(token)[other] == m[other],
{
}

} // verus!
