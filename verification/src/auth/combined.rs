//! The composite verifier: an ordered, non-empty chain of verifiers, tried
//! in order. The first success wins; when every member fails, the last
//! failure is the verdict. There is no short-circuit on a wrong password,
//! because different members answer for different user populations.

use vstd::prelude::*;

use crate::model::auth;
use crate::model::auth::UserView;
use crate::utils::secret_str::SecretString;
use crate::AuthService;

verus! {

/// The chain's decision: the first `Ok` among the members' decisions, else
/// the last error; an empty chain refuses access.
pub open spec fn spec_combined<V: AuthService>(
    auths: Seq<V>,
    user: Seq<char>,
    pass: Seq<char>,
) -> Result<UserView, auth::ErrorView>
    decreases auths.len(),
{
    if auths.len() == 0 {
        Err(auth::ErrorView::NoAccess)
    } else if auths.len() == 1 {
        auths[0].spec_login(user, pass)
    } else {
        match auths[0].spec_login(user, pass) {
            Ok(u) => Ok(u),
            Err(_) => spec_combined(auths.drop_first(), user, pass),
        }
    }
}

/// The composite succeeds exactly when some member succeeds, and on
/// all-failure returns the last member's error.
pub proof fn lemma_combined_verdict<V: AuthService>(
    auths: Seq<V>,
    user: Seq<char>,
    pass: Seq<char>,
)
    requires
        auths.len() > 0,
    ensures
        spec_combined(auths, user, pass) is Ok <==> exists|i: int|
            0 <= i < auths.len() && (#[trigger] auths[i].spec_login(user, pass)) is Ok,
        (forall|i: int|
            0 <= i < auths.len() ==> (#[trigger] auths[i].spec_login(user, pass)) is Err)
            ==> spec_combined(auths, user, pass) == auths.last().spec_login(user, pass),
    decreases auths.len(),
{
    if auths.len() == 1 {
        assert(auths.last() == auths[0]);
    } else {
        let d = auths.drop_first();
        lemma_combined_verdict(d, user, pass);
        assert(forall|i: int| 0 <= i < d.len() ==> d[i] == auths[i + 1]);
        match auths[0].spec_login(user, pass) {
            Ok(_) => {
                assert(auths[0].spec_login(user, pass) is Ok);
            },
            Err(_) => {
                if spec_combined(auths, user, pass) is Ok {
                    let i = choose|i: int|
                        0 <= i < d.len() && (#[trigger] d[i].spec_login(user, pass)) is Ok;
                    assert(auths[i + 1].spec_login(user, pass) is Ok);
                }
                if exists|i: int|
                    0 <= i < auths.len() && (#[trigger] auths[i].spec_login(user, pass)) is Ok {
                    let i = choose|i: int|
                        0 <= i < auths.len() && (#[trigger] auths[i].spec_login(
                            user,
                            pass,
                        )) is Ok;
                    assert(i > 0);
                    assert(d[i - 1].spec_login(user, pass) is Ok);
                }
                if forall|i: int|
                    0 <= i < auths.len() ==> (#[trigger] auths[i].spec_login(user, pass))
                        is Err {
                    assert(forall|i: int|
                        0 <= i < d.len() ==> (#[trigger] d[i].spec_login(user, pass)) is Err);
                    assert(d.last() == auths.last());
                }
            },
        }
    }
}

/// An ordered, non-empty chain of verifiers behind one `login`.
pub struct Auths<V: AuthService> {
    auths: Vec<V>,
}

impl<V: AuthService> Auths<V> {
    /// The members, in the order they are consulted.
    pub closed spec fn members(&self) -> Seq<V> {
        self.auths@
    }

    /// Builds the composite; an empty chain is rejected.
    pub fn new(auths: Vec<V>) -> (r: Result<Auths<V>, String>)
        ensures
            r matches Ok(a) ==> a.members() == auths@ && auths@.len() > 0,
            r is Err <==> auths@.len() == 0,
    {
        if auths.is_empty() {
            return Err(String::from_str("No auth services provided"));
        }
        Ok(Auths { auths })
    }
}

impl<V: AuthService> AuthService for Auths<V> {
    open spec fn spec_login(&self, user: Seq<char>, pass: Seq<char>) -> Result<
        UserView,
        auth::ErrorView,
    > {
        spec_combined(self.members(), user, pass)
    }

    fn login(&self, user: &str, pass: &SecretString) -> (r: Result<auth::User, auth::Error>) {
        let ghost list = self.members();
        let n = self.auths.len();
        if n == 0 {
            return Err(auth::Error::NoAccess());
        }
        let mut i: usize = 0;
        proof {
            assert(list.subrange(0, n as int) =~= list);
        }
        loop
            invariant
                0 < n == list.len(),
                0 <= i < n,
                list == self.members(),
                spec_combined(list, user@, pass@) == spec_combined(
                    list.subrange(i as int, n as int),
                    user@,
                    pass@,
                ),
            decreases n - i,
        {
            let ghost tail = list.subrange(i as int, n as int);
            proof {
                assert(tail[0] == list[i as int]);
                assert(tail.drop_first() =~= list.subrange(i as int + 1, n as int));
            }
            match self.auths[i].login(user, pass) {
                Ok(u) => {
                    proof {
                        assert(list[i as int].spec_login(user@, pass@) matches Ok(uv) && u@
                            == uv);
                    }
                    return Ok(u);
                },
                Err(e) => {
                    if i + 1 == n {
                        proof {
                            assert(tail.len() == 1);
                            assert(spec_combined(tail, user@, pass@) == list[
                                i as int].spec_login(user@, pass@));
                        }
                        return Err(e);
                    }
                    proof {
                        assert(tail.len() > 1);
                        assert(spec_combined(tail, user@, pass@) == spec_combined(
                            tail.drop_first(),
                            user@,
                            pass@,
                        ));
                    }
                },
            }
            i = i + 1;
        }
    }
}

} // verus!
