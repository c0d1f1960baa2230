//! Constant-time credential verification (RFC 1929 username/password).
//!
//! A plain `==` comparison short-circuits on the first differing byte, leaking
//! how many leading bytes matched via timing. These helpers compare in constant
//! time per pair and check every configured user without early exit.

use vstd::prelude::*;
use vstd::utf8::*;

use crate::config::User;

verus! {

/// Constant-time byte-slice equality.
///
/// Returns early only on a length mismatch (lengths are not secret); otherwise
/// every byte is folded into an accumulator so the running time does not depend
/// on the position of the first difference.
pub fn ct_eq(a: &[u8], b: &[u8]) -> (equal: bool)
    ensures
        equal == (a@ == b@),
{
    if a.len() != b.len() {
        return false;
    }
    let mut diff: u8 = 0;
    let mut i: usize = 0;
    assert(a@.take(0) =~= b@.take(0));
    while i < a.len()
        invariant
            i <= a.len(),
            a.len() == b.len(),
            diff == 0 <==> a@.take(i as int) == b@.take(i as int),
        decreases a.len() - i,
    {
        let x: u8 = a[i];
        let y: u8 = b[i];
        proof {
            assert((diff | (x ^ y)) == 0 <==> (diff == 0 && x == y)) by (bit_vector);
            assert(a@.take(i + 1) =~= a@.take(i as int).push(x));
            assert(b@.take(i + 1) =~= b@.take(i as int).push(y));
            assert(a@.take(i + 1).drop_last() =~= a@.take(i as int));
            assert(b@.take(i + 1).drop_last() =~= b@.take(i as int));
            assert(a@.take(i + 1).last() == x);
            assert(b@.take(i + 1).last() == y);
        }
        diff = diff | (x ^ y);
        i += 1;
    }
    assert(a@.take(a@.len() as int) =~= a@);
    assert(b@.take(b@.len() as int) =~= b@);
    diff == 0
}

/// Whether some user has exactly this username and this password.
pub open spec fn credentials_match(
    users: Seq<User>,
    username: Seq<char>,
    password: Seq<char>,
) -> bool {
    exists|i: int|
        0 <= i < users.len() && (#[trigger] users[i]).username@ == username && users[i].password@
            == password
}

/// Verify a username/password pair against the configured users.
///
/// Every user is checked (no short-circuit on the first match) so the timing
/// does not reveal which entry matched or how far the scan got.
pub fn verify_credentials(users: &[User], username: &str, password: &str) -> (ok: bool)
    ensures
        ok == credentials_match(users@, username@, password@),
{
    let mut hits: u8 = 0;
    let mut i: usize = 0;
    while i < users.len()
        invariant
            i <= users.len(),
            (hits != 0) == credentials_match(users@.take(i as int), username@, password@),
        decreases users.len() - i,
    {
        let u: &User = &users[i];
        let user_match: bool = ct_eq(u.username.as_str().as_bytes(), username.as_bytes());
        let pass_match: bool = ct_eq(u.password.as_str().as_bytes(), password.as_bytes());
        let ghost before = users@.take(i as int);
        let ghost after = users@.take(i + 1);
        proof {
            encode_utf8_decode_utf8(u.username@);
            encode_utf8_decode_utf8(u.password@);
            encode_utf8_decode_utf8(username@);
            encode_utf8_decode_utf8(password@);
            assert(user_match == (u.username@ == username@));
            assert(pass_match == (u.password@ == password@));
            assert(after =~= before.push(*u));
            assert(after[i as int] == *u);
            if credentials_match(before, username@, password@) {
                let j = choose|j: int|
                    0 <= j < before.len() && (#[trigger] before[j]).username@ == username@
                        && before[j].password@ == password@;
                assert(after[j] == before[j]);
            }
            if credentials_match(after, username@, password@) {
                let j = choose|j: int|
                    0 <= j < after.len() && (#[trigger] after[j]).username@ == username@
                        && after[j].password@ == password@;
                if j < i {
                    assert(before[j] == after[j]);
                }
            }
        }
        let hit: u8 = (user_match as u8) & (pass_match as u8);
        proof {
            assert((0u8 & 0u8) == 0 && (0u8 & 1u8) == 0 && (1u8 & 0u8) == 0 && (1u8 & 1u8) == 1)
                by (bit_vector);
            assert((hits | hit) != 0 <==> (hits != 0 || hit != 0)) by (bit_vector);
        }
        hits = hits | hit;
        i += 1;
    }
    assert(users@.take(users@.len() as int) =~= users@);
    hits != 0
}

/// The password of a user lets that user in; a name that no user has, or a password
/// that no user of that name has, lets nobody in.
pub proof fn only_users_are_let_in(
    users: Seq<User>,
    i: int,
    username: Seq<char>,
    password: Seq<char>,
)
    requires
        0 <= i < users.len(),
    ensures
        credentials_match(users, users[i].username@, users[i].password@),
        (forall|j: int|
            0 <= j < users.len() && (#[trigger] users[j]).username@ == username
                ==> users[j].password@ != password) ==> !credentials_match(
            users,
            username,
            password,
        ),
        !credentials_match(Seq::empty(), username, password),
{
}

} // verus!
