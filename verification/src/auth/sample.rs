//! The static credential verifier: a table parsed from a
//! `user:pass[:dept[:r1,r2,...]];...` string.

use vstd::prelude::*;
use vstd::string::StringExecFns;

use crate::model::auth;
use crate::model::auth::UserView;
use crate::utils::secret_str::SecretString;
use crate::utils::text::{spec_is_space, spec_split, spec_trim, spec_trim_end, spec_trim_start, split_on, str_eq, trim};
use crate::AuthService;

verus! {

/// Mathematical image of one table entry.
pub struct UserEntryView {
    pub name: Seq<char>,
    pub pass: Seq<char>,
    pub department: Seq<char>,
    pub roles: Seq<Seq<char>>,
}

/// One parsed table entry: credentials plus the resolved identity fields.
pub struct UserEntry {
    pub name: String,
    pub pass: String,
    pub department: String,
    pub roles: Vec<String>,
}

impl View for UserEntry {
    type V = UserEntryView;

    open spec fn view(&self) -> UserEntryView {
        UserEntryView {
            name: self.name@,
            pass: self.pass@,
            department: self.department@,
            roles: self.roles.deep_view(),
        }
    }
}

/// Comma-separated roles, each trimmed, empties dropped.
pub open spec fn spec_clean_roles(ps: Seq<Seq<char>>) -> Seq<Seq<char>>
    decreases ps.len(),
{
    if ps.len() == 0 {
        Seq::<Seq<char>>::empty()
    } else {
        let t = spec_trim(ps[0]);
        let rest = spec_clean_roles(ps.drop_first());
        if t.len() == 0 {
            rest
        } else {
            seq![t] + rest
        }
    }
}

/// One `user:pass[:dept[:roles]]` entry; colons delimit two to four fields,
/// user and pass must be non-empty, department defaults to
/// `"IT dep of " + user`, roles default to `["USER"]`.
pub open spec fn spec_parse_pair(pair: Seq<char>) -> Option<UserEntryView> {
    let fields = spec_split(pair, ':');
    if fields.len() < 2 || fields.len() > 4 {
        None
    } else if fields[0].len() == 0 || fields[1].len() == 0 {
        None
    } else {
        Some(
            UserEntryView {
                name: fields[0],
                pass: fields[1],
                department: if fields.len() >= 3 {
                    fields[2]
                } else {
                    "IT dep of "@ + fields[0]
                },
                roles: if fields.len() == 4 {
                    spec_clean_roles(spec_split(fields[3], ','))
                } else {
                    seq!["USER"@]
                },
            },
        )
    }
}

/// Adds an entry to the table: replaces the first entry with the same user
/// name in place, or appends.
pub open spec fn spec_tbl_insert(
    tbl: Seq<UserEntryView>,
    e: UserEntryView,
) -> Seq<UserEntryView>
    decreases tbl.len(),
{
    if tbl.len() == 0 {
        seq![e]
    } else if tbl[0].name == e.name {
        seq![e] + tbl.drop_first()
    } else {
        seq![tbl[0]] + spec_tbl_insert(tbl.drop_first(), e)
    }
}

/// The table the semicolon-separated entries build up, in order.
pub open spec fn spec_parse_pairs(ps: Seq<Seq<char>>) -> Option<Seq<UserEntryView>>
    decreases ps.len(),
{
    if ps.len() == 0 {
        Some(Seq::<UserEntryView>::empty())
    } else {
        match (spec_parse_pairs(ps.drop_last()), spec_parse_pair(ps.last())) {
            (Some(tbl), Some(e)) => Some(spec_tbl_insert(tbl, e)),
            _ => None,
        }
    }
}

/// What `parse_users` accepts and builds: the empty input gives the empty
/// table, otherwise every semicolon-separated entry must parse.
pub open spec fn spec_parse_users(s: Seq<char>) -> Option<Seq<UserEntryView>> {
    if s.len() == 0 {
        Some(Seq::<UserEntryView>::empty())
    } else {
        spec_parse_pairs(spec_split(s, ';'))
    }
}

proof fn lemma_tbl_insert_replace(tbl: Seq<UserEntryView>, e: UserEntryView, i: int)
    requires
        0 <= i < tbl.len(),
        tbl[i].name == e.name,
        forall|j: int| 0 <= j < i ==> (#[trigger] tbl[j]).name != e.name,
    ensures
        spec_tbl_insert(tbl, e) == tbl.update(i, e),
    decreases tbl.len(),
{
    if i == 0 {
        assert(seq![e] + tbl.drop_first() =~= tbl.update(0, e));
    } else {
        let d = tbl.drop_first();
        assert(forall|j: int| 0 <= j < i - 1 ==> (#[trigger] d[j]).name != e.name);
        assert(d[i - 1] == tbl[i]);
        lemma_tbl_insert_replace(d, e, i - 1);
        assert(seq![tbl[0]] + d.update(i - 1, e) =~= tbl.update(i, e));
    }
}

proof fn lemma_tbl_insert_append(tbl: Seq<UserEntryView>, e: UserEntryView)
    requires
        forall|j: int| 0 <= j < tbl.len() ==> (#[trigger] tbl[j]).name != e.name,
    ensures
        spec_tbl_insert(tbl, e) == tbl.push(e),
    decreases tbl.len(),
{
    if tbl.len() == 0 {
        assert(seq![e] =~= tbl.push(e));
    } else {
        let d = tbl.drop_first();
        assert(forall|j: int| 0 <= j < d.len() ==> (#[trigger] d[j]).name != e.name);
        lemma_tbl_insert_append(d, e);
        assert(seq![tbl[0]] + d.push(e) =~= tbl.push(e));
    }
}

/// Parses the roles field: comma-split, trimmed, empties dropped.
fn parse_roles(field: &str) -> (r: Vec<String>)
    ensures
        r.deep_view() == spec_clean_roles(spec_split(field@, ',')),
{
    let pieces = split_on(field, ',');
    let ghost ps = pieces.deep_view();
    let mut roles: Vec<String> = Vec::new();
    let mut k: usize = 0;
    proof {
        assert(ps.subrange(0, ps.len() as int) =~= ps);
        assert(spec_clean_roles(ps.subrange(k as int, ps.len() as int)) == spec_clean_roles(ps));
    }
    while k < pieces.len()
        invariant
            k <= pieces.len(),
            ps == pieces.deep_view(),
            ps.len() == pieces.len(),
            spec_clean_roles(ps) =~= roles.deep_view() + spec_clean_roles(
                ps.subrange(k as int, ps.len() as int),
            ),
        decreases pieces.len() - k,
    {
        let ghost tail = ps.subrange(k as int, ps.len() as int);
        proof {
            assert(tail.len() > 0);
            assert(tail[0] == ps[k as int]);
            assert(tail.drop_first() =~= ps.subrange(k as int + 1, ps.len() as int));
            assert(pieces[k as int]@ == ps[k as int]);
        }
        let t = trim(pieces[k].as_str());
        if !t.as_str().is_empty() {
            let ghost prev = roles.deep_view();
            roles.push(t);
            proof {
                assert(spec_trim(ps[k as int]).len() > 0);
                assert(roles.deep_view() =~= prev + seq![spec_trim(ps[k as int])]);
            }
        } else {
            proof {
                assert(spec_trim(ps[k as int]).len() == 0);
            }
        }
        k = k + 1;
    }
    proof {
        assert(ps.subrange(k as int, ps.len() as int).len() == 0);
        assert(spec_clean_roles(ps.subrange(k as int, ps.len() as int))
            =~= Seq::<Seq<char>>::empty());
        assert(roles.deep_view() =~= spec_clean_roles(ps));
    }
    roles
}

/// Parses one `user:pass[:dept[:roles]]` entry, exactly as
/// [`spec_parse_pair`] says; the error keeps the offending entry.
fn parse_pair(pair: &str) -> (r: Result<UserEntry, String>)
    ensures
        r matches Ok(e) ==> spec_parse_pair(pair@) == Some(e@),
        r is Err <==> spec_parse_pair(pair@) is None,
{
    let fields = split_on(pair, ':');
    let ghost fv = spec_split(pair@, ':');
    if fields.len() < 2 || fields.len() > 4 {
        let mut m = String::from_str("Invalid user:pass format in: ");
        m.append(pair);
        return Err(m);
    }
    proof {
        assert(fields[0]@ == fv[0]);
        assert(fields[1]@ == fv[1]);
    }
    if fields[0].as_str().is_empty() || fields[1].as_str().is_empty() {
        let mut m = String::from_str("User or password cannot be empty: '");
        m.append(pair);
        m.append("'");
        return Err(m);
    }
    let name = fields[0].clone();
    let pass = fields[1].clone();
    let department = if fields.len() >= 3 {
        proof {
            assert(fields[2]@ == fv[2]);
        }
        fields[2].clone()
    } else {
        let mut d = String::from_str("IT dep of ");
        d.append(fields[0].as_str());
        d
    };
    let roles = if fields.len() == 4 {
        proof {
            assert(fields[3]@ == fv[3]);
        }
        parse_roles(fields[3].as_str())
    } else {
        let mut v: Vec<String> = Vec::new();
        v.push(String::from_str("USER"));
        proof {
            assert(v.deep_view() =~= seq!["USER"@]);
        }
        v
    };
    Ok(UserEntry { name, pass, department, roles })
}

/// Parses a whole `user:pass;user2:pass2` table, exactly as
/// [`spec_parse_users`] says.
pub fn parse_users(user_pass_pairs: &str) -> (r: Result<Vec<UserEntry>, String>)
    ensures
        r matches Ok(t) ==> spec_parse_users(user_pass_pairs@) matches Some(tbl) && t@.len()
            == tbl.len() && (forall|i: int| 0 <= i < tbl.len() ==> (#[trigger] t@[i])@ == tbl[i]),
        r is Err <==> spec_parse_users(user_pass_pairs@) is None,
{
    let mut table: Vec<UserEntry> = Vec::new();
    if user_pass_pairs.is_empty() {
        return Ok(table);
    }
    let pairs = split_on(user_pass_pairs, ';');
    let ghost ps = pairs.deep_view();
    let mut k: usize = 0;
    proof {
        assert(ps.subrange(0, 0).len() == 0);
        assert(spec_parse_pairs(ps.subrange(0, 0)) == Some(Seq::<UserEntryView>::empty()));
        assert(table@.len() == 0);
    }
    while k < pairs.len()
        invariant
            k <= pairs.len(),
            ps == pairs.deep_view(),
            ps.len() == pairs.len(),
            user_pass_pairs@.len() > 0,
            ps == spec_split(user_pass_pairs@, ';'),
            spec_parse_pairs(ps.subrange(0, k as int)) matches Some(tbl) && table@.len()
                == tbl.len() && (forall|i: int|
                0 <= i < tbl.len() ==> (#[trigger] table@[i])@ == tbl[i]),
        decreases pairs.len() - k,
    {
        let ghost pre = ps.subrange(0, k as int);
        let ghost cur = ps.subrange(0, k as int + 1);
        proof {
            assert(cur.drop_last() =~= pre);
            assert(cur.last() == ps[k as int]);
            assert(pairs[k as int]@ == ps[k as int]);
        }
        match parse_pair(pairs[k].as_str()) {
            Ok(entry) => {
                let ghost tbl = spec_parse_pairs(pre).unwrap();
                let ghost ev = entry@;
                match find_entry(&table, entry.name.as_str()) {
                    Some(i) => {
                        let ghost told = table@;
                        proof {
                            assert(told[i as int]@ == tbl[i as int]);
                            assert(tbl[i as int].name == ev.name);
                            assert forall|j: int| 0 <= j < i as int implies (
                            #[trigger] tbl[j]).name != ev.name by {
                                assert(told[j]@ == tbl[j]);
                            }
                            lemma_tbl_insert_replace(tbl, ev, i as int);
                        }
                        table.set(i, entry);
                        proof {
                            assert(spec_parse_pairs(cur) == Some(spec_tbl_insert(tbl, ev)));
                            let tn = spec_tbl_insert(tbl, ev);
                            assert forall|x: int| 0 <= x < tn.len() implies (
                            #[trigger] table@[x])@ == tn[x] by {
                                assert(tn == tbl.update(i as int, ev));
                                if x != i as int {
                                    assert(table@[x] == told[x]);
                                }
                            }
                        }
                    },
                    None => {
                        let ghost told = table@;
                        proof {
                            assert forall|j: int| 0 <= j < tbl.len() implies (
                            #[trigger] tbl[j]).name != ev.name by {
                                assert(told[j]@ == tbl[j]);
                            }
                            lemma_tbl_insert_append(tbl, ev);
                        }
                        table.push(entry);
                        proof {
                            assert(spec_parse_pairs(cur) == Some(spec_tbl_insert(tbl, ev)));
                            let tn = spec_tbl_insert(tbl, ev);
                            assert forall|x: int| 0 <= x < tn.len() implies (
                            #[trigger] table@[x])@ == tn[x] by {
                                assert(tn == tbl.push(ev));
                                if x < tbl.len() {
                                    assert(table@[x] == told[x]);
                                }
                            }
                        }
                    },
                }
            },
            Err(m) => {
                proof {
                    if spec_parse_pairs(ps) is Some {
                        lemma_parse_pairs_each(ps, k as int);
                    }
                }
                return Err(m);
            },
        }
        k = k + 1;
    }
    proof {
        assert(ps.subrange(0, ps.len() as int) =~= ps);
    }
    Ok(table)
}

/// If the whole list parses, so does every single entry.
proof fn lemma_parse_pairs_each(ps: Seq<Seq<char>>, k: int)
    requires
        spec_parse_pairs(ps) is Some,
        0 <= k < ps.len(),
    ensures
        spec_parse_pair(ps[k]) is Some,
    decreases ps.len(),
{
    if k < ps.len() - 1 {
        assert(ps.drop_last()[k] == ps[k]);
        lemma_parse_pairs_each(ps.drop_last(), k);
    }
}

/// The first entry carrying this user name, if any.
fn find_entry(table: &Vec<UserEntry>, name: &str) -> (r: Option<usize>)
    ensures
        r matches Some(i) ==> i < table@.len() && table@[i as int]@.name == name@ && (forall|
            j: int,
        |
            0 <= j < i ==> (#[trigger] table@[j])@.name != name@),
        r is None ==> forall|j: int|
            0 <= j < table@.len() ==> (#[trigger] table@[j])@.name != name@,
{
    let mut m: usize = 0;
    let n = table.len();
    while m < n
        invariant
            m <= n,
            n == table@.len(),
            forall|j: int| 0 <= j < m ==> (#[trigger] table@[j])@.name != name@,
        decreases n - m,
    {
        if str_eq(table[m].name.as_str(), name) {
            return Some(m);
        }
        m = m + 1;
    }
    None
}

/// Looks a user up in the table: the first entry with that name decides.
pub open spec fn spec_lookup(tbl: Seq<UserEntryView>, user: Seq<char>) -> Option<UserEntryView>
    decreases tbl.len(),
{
    if tbl.len() == 0 {
        None
    } else if tbl[0].name == user {
        Some(tbl[0])
    } else {
        spec_lookup(tbl.drop_first(), user)
    }
}

proof fn lemma_lookup_at(tbl: Seq<UserEntryView>, user: Seq<char>, i: int)
    requires
        0 <= i < tbl.len(),
        tbl[i].name == user,
        forall|j: int| 0 <= j < i ==> (#[trigger] tbl[j]).name != user,
    ensures
        spec_lookup(tbl, user) == Some(tbl[i]),
    decreases tbl.len(),
{
    if i > 0 {
        let d = tbl.drop_first();
        assert(d[i - 1] == tbl[i]);
        assert(forall|j: int| 0 <= j < i - 1 ==> (#[trigger] d[j]).name != user);
        lemma_lookup_at(d, user, i - 1);
    }
}

proof fn lemma_lookup_none(tbl: Seq<UserEntryView>, user: Seq<char>)
    requires
        forall|j: int| 0 <= j < tbl.len() ==> (#[trigger] tbl[j]).name != user,
    ensures
        spec_lookup(tbl, user) is None,
    decreases tbl.len(),
{
    if tbl.len() > 0 {
        let d = tbl.drop_first();
        assert(forall|j: int| 0 <= j < d.len() ==> (#[trigger] d[j]).name != user);
        lemma_lookup_none(d, user);
    }
}

/// The verifier backed by the parsed table.
pub struct Sample {
    users: Vec<UserEntry>,
}

impl Sample {
    /// The entries held, in table order.
    pub closed spec fn table(&self) -> Seq<UserEntryView> {
        self.users@.map_values(|e: UserEntry| e@)
    }

    /// Builds the verifier from a `user:pass[:dept[:roles]];...` string;
    /// the empty input yields an empty table.
    pub fn new(user_pass_pairs: &str) -> (r: Result<Sample, String>)
        ensures
            r matches Ok(sm) ==> spec_parse_users(user_pass_pairs@) == Some(sm.table()),
            r is Err <==> spec_parse_users(user_pass_pairs@) is None,
    {
        let users = parse_users(user_pass_pairs)?;
        let sm = Sample { users };
        proof {
            assert(sm.table() =~= spec_parse_users(user_pass_pairs@).unwrap());
        }
        Ok(sm)
    }
}

impl AuthService for Sample {
    /// The decision: the user's entry must exist and carry exactly the
    /// offered password; everything else is a wrong user or password.
    open spec fn spec_login(&self, user: Seq<char>, pass: Seq<char>) -> Result<
        UserView,
        auth::ErrorView,
    > {
        match spec_lookup(self.table(), user) {
            Some(e) => if e.pass == pass {
                Ok(
                    UserView {
                        id: e.name,
                        name: e.name,
                        department: e.department,
                        roles: e.roles,
                    },
                )
            } else {
                Err(auth::ErrorView::WrongUserPass)
            },
            None => Err(auth::ErrorView::WrongUserPass),
        }
    }

    fn login(&self, user: &str, pass: &SecretString) -> (r: Result<auth::User, auth::Error>) {
        match find_entry(&self.users, user) {
            Some(i) => {
                proof {
                    assert(self.table()[i as int] == self.users@[i as int]@);
                    assert(forall|j: int|
                        0 <= j < i ==> (#[trigger] self.table()[j]).name != user@);
                    lemma_lookup_at(self.table(), user@, i as int);
                }
                let entry = &self.users[i];
                if str_eq(entry.pass.as_str(), pass.reveal_secret()) {
                    let roles = entry.roles.clone();
                    proof {
                        assert(roles.deep_view() =~= entry.roles.deep_view());
                        vstd::std_specs::vec::vec_clone_deep_view_proof(entry.roles, roles);
                    }
                    Ok(
                        auth::User {
                            id: entry.name.clone(),
                            name: entry.name.clone(),
                            department: entry.department.clone(),
                            roles,
                        },
                    )
                } else {
                    Err(auth::Error::WrongUserPass())
                }
            },
            None => {
                proof {
                    assert(forall|j: int|
                        0 <= j < self.table().len() ==> (#[trigger] self.table()[j]).name
                            != user@);
                    lemma_lookup_none(self.table(), user@);
                }
                Err(auth::Error::WrongUserPass())
            },
        }
    }
}

/// A role as the parser leaves it: non-empty, trimmed, and free of the
/// three structural separators.
pub open spec fn wf_role(r: Seq<char>) -> bool {
    &&& r.len() > 0
    &&& !r.contains(',')
    &&& !r.contains(':')
    &&& !r.contains(';')
    &&& spec_trim(r) == r
}

/// An entry as the parser builds it: non-empty credentials, every field
/// free of the separators that delimit it, roles well-formed.
pub open spec fn wf_entry(e: UserEntryView) -> bool {
    &&& e.name.len() > 0 && e.pass.len() > 0
    &&& !e.name.contains(':') && !e.name.contains(';')
    &&& !e.pass.contains(':') && !e.pass.contains(';')
    &&& !e.department.contains(':') && !e.department.contains(';')
    &&& (forall|k: int| 0 <= k < e.roles.len() ==> wf_role(#[trigger] e.roles[k]))
}

/// A table as the parser builds it: well-formed entries, names unique.
pub open spec fn wf_table(tbl: Seq<UserEntryView>) -> bool {
    &&& (forall|i: int| 0 <= i < tbl.len() ==> wf_entry(#[trigger] tbl[i]))
    &&& (forall|i: int, j: int| 0 <= i < j < tbl.len() ==> tbl[i].name != tbl[j].name)
}

/// Roles joined with commas, as an entry's fourth field renders them.
pub open spec fn spec_join_roles(roles: Seq<Seq<char>>) -> Seq<char>
    decreases roles.len(),
{
    if roles.len() == 0 {
        Seq::<char>::empty()
    } else if roles.len() == 1 {
        roles[0]
    } else {
        roles[0] + seq![','] + spec_join_roles(roles.drop_first())
    }
}

/// One entry rendered back into the table syntax, all four fields explicit.
pub open spec fn spec_render_entry(e: UserEntryView) -> Seq<char> {
    e.name + seq![':'] + e.pass + seq![':'] + e.department + seq![':'] + spec_join_roles(e.roles)
}

/// A table rendered back into the `user:pass:dept:roles;...` syntax.
pub open spec fn spec_render_users(tbl: Seq<UserEntryView>) -> Seq<char>
    decreases tbl.len(),
{
    if tbl.len() == 0 {
        Seq::<char>::empty()
    } else if tbl.len() == 1 {
        spec_render_entry(tbl[0])
    } else {
        spec_render_entry(tbl[0]) + seq![';'] + spec_render_users(tbl.drop_first())
    }
}

proof fn lemma_join_roles_free(roles: Seq<Seq<char>>, x: char)
    requires
        x != ',',
        forall|k: int| 0 <= k < roles.len() ==> !(#[trigger] roles[k]).contains(x),
    ensures
        !spec_join_roles(roles).contains(x),
    decreases roles.len(),
{
    if roles.len() > 1 {
        let d = roles.drop_first();
        assert(forall|k: int| 0 <= k < d.len() ==> !(#[trigger] d[k]).contains(x)) by {
            assert(forall|k: int| 0 <= k < d.len() ==> #[trigger] d[k] == roles[k + 1]);
        }
        lemma_join_roles_free(d, x);
        assert(!seq![','].contains(x)) by {
            if seq![','].contains(x) {
                let i = choose|i: int| 0 <= i < 1 && seq![','][i] == x;
                assert(seq![','][0] == ',');
            }
        }
        crate::utils::text::lemma_concat_contains(roles[0], seq![','], x);
        crate::utils::text::lemma_concat_contains(
            roles[0] + seq![','],
            spec_join_roles(d),
            x,
        );
    }
}

proof fn lemma_sep_lit_free(x: char)
    requires
        x != ':',
    ensures
        !seq![':'].contains(x),
{
    if seq![':'].contains(x) {
        let i = choose|i: int| 0 <= i < 1 && seq![':'][i] == x;
        assert(seq![':'][0] == ':');
    }
}

proof fn lemma_render_entry_free(e: UserEntryView)
    requires
        wf_entry(e),
    ensures
        !spec_render_entry(e).contains(';'),
        spec_render_entry(e).len() > 0,
{
    let c = seq![':'];
    let rj = spec_join_roles(e.roles);
    assert(forall|k: int| 0 <= k < e.roles.len() ==> !(#[trigger] e.roles[k]).contains(';'));
    lemma_join_roles_free(e.roles, ';');
    lemma_sep_lit_free(';');
    crate::utils::text::lemma_concat_contains(e.name, c, ';');
    crate::utils::text::lemma_concat_contains(e.name + c, e.pass, ';');
    crate::utils::text::lemma_concat_contains(e.name + c + e.pass, c, ';');
    crate::utils::text::lemma_concat_contains(e.name + c + e.pass + c, e.department, ';');
    crate::utils::text::lemma_concat_contains(
        e.name + c + e.pass + c + e.department,
        c,
        ';',
    );
    crate::utils::text::lemma_concat_contains(
        e.name + c + e.pass + c + e.department + c,
        rj,
        ';',
    );
}

proof fn lemma_clean_roles_wf(ps: Seq<Seq<char>>)
    requires
        forall|k: int|
            0 <= k < ps.len() ==> !(#[trigger] ps[k]).contains(',') && !ps[k].contains(':')
                && !ps[k].contains(';'),
    ensures
        forall|k: int|
            0 <= k < spec_clean_roles(ps).len() ==> wf_role(#[trigger] spec_clean_roles(ps)[k]),
    decreases ps.len(),
{
    if ps.len() > 0 {
        let d = ps.drop_first();
        assert(forall|k: int| 0 <= k < d.len() ==> #[trigger] d[k] == ps[k + 1]);
        lemma_clean_roles_wf(d);
        let t = spec_trim(ps[0]);
        let rest = spec_clean_roles(d);
        if t.len() > 0 {
            assert(wf_role(t)) by {
                crate::utils::text::lemma_trim_keeps_free(ps[0], ',');
                crate::utils::text::lemma_trim_keeps_free(ps[0], ':');
                crate::utils::text::lemma_trim_keeps_free(ps[0], ';');
                crate::utils::text::lemma_trim_idempotent(ps[0]);
            }
            assert forall|k: int| 0 <= k < spec_clean_roles(ps).len() implies wf_role(
                #[trigger] spec_clean_roles(ps)[k],
            ) by {
                if k > 0 {
                    assert(spec_clean_roles(ps)[k] == rest[k - 1]);
                }
            }
        }
    }
}

/// A parsed pair is a well-formed entry, as long as the pair itself
/// carries no `;`.
proof fn lemma_parse_pair_wf(pair: Seq<char>)
    requires
        !pair.contains(';'),
        spec_parse_pair(pair) is Some,
    ensures
        wf_entry(spec_parse_pair(pair).unwrap()),
{
    let fields = spec_split(pair, ':');
    crate::utils::text::lemma_split_free_of_sep(pair, ':');
    crate::utils::text::lemma_split_keeps_free(pair, ':', ';');
    crate::utils::text::lemma_split_len(pair, ':');
    let e = spec_parse_pair(pair).unwrap();
    if fields.len() < 3 {
        // the default department: a fixed prefix and the user name
        let lit = "IT dep of "@;
        proof_lit_it_dep_free();
        crate::utils::text::lemma_concat_contains(lit, fields[0], ':');
        crate::utils::text::lemma_concat_contains(lit, fields[0], ';');
    }
    if fields.len() == 4 {
        crate::utils::text::lemma_split_free_of_sep(fields[3], ',');
        crate::utils::text::lemma_split_keeps_free(fields[3], ',', ':');
        crate::utils::text::lemma_split_keeps_free(fields[3], ',', ';');
        lemma_clean_roles_wf(spec_split(fields[3], ','));
    } else {
        // the default role list
        proof_lit_user_role_wf();
    }
}

/// The fixed department prefix holds neither separator.
proof fn proof_lit_it_dep_free()
    ensures
        !("IT dep of "@).contains(':'),
        !("IT dep of "@).contains(';'),
{
    reveal_strlit("IT dep of ");
    let lit = "IT dep of "@;
    assert(!lit.contains(':')) by {
        if lit.contains(':') {
            let i = choose|i: int| 0 <= i < lit.len() && lit[i] == ':';
            assert(i == 0 || i == 1 || i == 2 || i == 3 || i == 4 || i == 5 || i == 6 || i == 7
                || i == 8 || i == 9);
        }
    }
    assert(!lit.contains(';')) by {
        if lit.contains(';') {
            let i = choose|i: int| 0 <= i < lit.len() && lit[i] == ';';
            assert(i == 0 || i == 1 || i == 2 || i == 3 || i == 4 || i == 5 || i == 6 || i == 7
                || i == 8 || i == 9);
        }
    }
}

/// The default role is a well-formed role.
proof fn proof_lit_user_role_wf()
    ensures
        wf_role("USER"@),
{
    reveal_strlit("USER");
    let lit = "USER"@;
    assert(!lit.contains(',') && !lit.contains(':') && !lit.contains(';')) by {
        assert forall|x: char| x == ',' || x == ':' || x == ';' implies !lit.contains(x) by {
            if lit.contains(x) {
                let i = choose|i: int| 0 <= i < lit.len() && lit[i] == x;
                assert(i == 0 || i == 1 || i == 2 || i == 3);
            }
        }
    }
    assert(spec_trim(lit) == lit) by {
        assert(!spec_is_space(lit[0]));
        assert(!spec_is_space(lit.last()));
        assert(spec_trim_start(lit) == lit);
        assert(spec_trim_end(lit) == lit);
    }
}

/// Inserting a well-formed entry keeps the table well-formed.
proof fn lemma_tbl_insert_wf(tbl: Seq<UserEntryView>, e: UserEntryView)
    requires
        wf_table(tbl),
        wf_entry(e),
    ensures
        wf_table(spec_tbl_insert(tbl, e)),
    decreases tbl.len(),
{
    if tbl.len() == 0 {
    } else if tbl[0].name == e.name {
        let t = seq![e] + tbl.drop_first();
        assert forall|i: int| 0 <= i < t.len() implies wf_entry(#[trigger] t[i]) by {
            if i > 0 {
                assert(t[i] == tbl[i]);
            }
        }
        assert forall|i: int, j: int| 0 <= i < j < t.len() implies t[i].name != t[j].name by {
            if i == 0 {
                assert(t[j] == tbl[j]);
                assert(tbl[0].name != tbl[j].name);
            } else {
                assert(t[i] == tbl[i] && t[j] == tbl[j]);
            }
        }
    } else {
        let d = tbl.drop_first();
        assert(wf_table(d)) by {
            assert(forall|i: int| 0 <= i < d.len() ==> #[trigger] d[i] == tbl[i + 1]);
        }
        lemma_tbl_insert_wf(d, e);
        let rec = spec_tbl_insert(d, e);
        let t = seq![tbl[0]] + rec;
        lemma_tbl_insert_names(d, e);
        assert forall|i: int| 0 <= i < t.len() implies wf_entry(#[trigger] t[i]) by {
            if i > 0 {
                assert(t[i] == rec[i - 1]);
            }
        }
        assert forall|i: int, j: int| 0 <= i < j < t.len() implies t[i].name != t[j].name by {
            if i == 0 {
                assert(t[j] == rec[j - 1]);
                assert(rec[j - 1].name == e.name || d.contains(rec[j - 1]));
                if rec[j - 1].name != e.name {
                    let x = choose|x: int| 0 <= x < d.len() && d[x] == rec[j - 1];
                    assert(tbl[x + 1] == d[x]);
                }
            } else {
                assert(t[i] == rec[i - 1] && t[j] == rec[j - 1]);
            }
        }
    }
}

/// Every entry of an insertion result carries either the new name or a name
/// already in the table; more precisely it is the new entry or an old one.
proof fn lemma_tbl_insert_names(tbl: Seq<UserEntryView>, e: UserEntryView)
    ensures
        forall|k: int|
            0 <= k < spec_tbl_insert(tbl, e).len() ==> (#[trigger] spec_tbl_insert(tbl, e)[
                k]).name == e.name || tbl.contains(spec_tbl_insert(tbl, e)[k]),
    decreases tbl.len(),
{
    let t = spec_tbl_insert(tbl, e);
    if tbl.len() == 0 {
    } else if tbl[0].name == e.name {
        assert forall|k: int| 0 <= k < t.len() implies (#[trigger] t[k]).name == e.name
            || tbl.contains(t[k]) by {
            if k > 0 {
                assert(t[k] == tbl.drop_first()[k - 1]);
                assert(tbl[k] == t[k]);
            }
        }
    } else {
        let d = tbl.drop_first();
        lemma_tbl_insert_names(d, e);
        let rec = spec_tbl_insert(d, e);
        assert forall|k: int| 0 <= k < t.len() implies (#[trigger] t[k]).name == e.name
            || tbl.contains(t[k]) by {
            if k == 0 {
                assert(t[0] == tbl[0]);
                assert(tbl[0] == tbl[0]);
            } else {
                assert(t[k] == rec[k - 1]);
                if rec[k - 1].name != e.name {
                    assert(d.contains(rec[k - 1]));
                    let x = choose|x: int| 0 <= x < d.len() && d[x] == rec[k - 1];
                    assert(tbl[x + 1] == d[x]);
                }
            }
        }
    }
}

/// A table a legal string parses to is well-formed.
proof fn lemma_parse_pairs_wf(ps: Seq<Seq<char>>)
    requires
        spec_parse_pairs(ps) is Some,
        forall|k: int| 0 <= k < ps.len() ==> !(#[trigger] ps[k]).contains(';'),
    ensures
        wf_table(spec_parse_pairs(ps).unwrap()),
    decreases ps.len(),
{
    if ps.len() > 0 {
        let pre = ps.drop_last();
        assert(forall|k: int| 0 <= k < pre.len() ==> pre[k] == ps[k]);
        lemma_parse_pairs_wf(pre);
        lemma_parse_pair_wf(ps.last());
        lemma_tbl_insert_wf(
            spec_parse_pairs(pre).unwrap(),
            spec_parse_pair(ps.last()).unwrap(),
        );
    }
}

/// The parser only builds well-formed tables.
pub proof fn lemma_parse_users_wf(s: Seq<char>)
    requires
        spec_parse_users(s) is Some,
    ensures
        wf_table(spec_parse_users(s).unwrap()),
{
    if s.len() > 0 {
        crate::utils::text::lemma_split_free_of_sep(s, ';');
        lemma_parse_pairs_wf(spec_split(s, ';'));
    }
}

/// The rendered table splits back into one rendered entry per table entry.
proof fn lemma_render_splits(tbl: Seq<UserEntryView>)
    requires
        wf_table(tbl),
        tbl.len() >= 1,
    ensures
        spec_split(spec_render_users(tbl), ';') == tbl.map_values(
            |e: UserEntryView| spec_render_entry(e),
        ),
    decreases tbl.len(),
{
    let pieces = tbl.map_values(|e: UserEntryView| spec_render_entry(e));
    lemma_render_entry_free(tbl[0]);
    if tbl.len() == 1 {
        crate::utils::text::lemma_split_single(spec_render_entry(tbl[0]), ';');
        assert(spec_split(spec_render_users(tbl), ';') =~= pieces);
    } else {
        let d = tbl.drop_first();
        assert(wf_table(d)) by {
            assert(forall|i: int| 0 <= i < d.len() ==> #[trigger] d[i] == tbl[i + 1]);
        }
        lemma_render_splits(d);
        crate::utils::text::lemma_split_concat(
            spec_render_entry(tbl[0]),
            spec_render_users(d),
            ';',
        );
        assert(spec_split(spec_render_users(tbl), ';') == seq![spec_render_entry(tbl[0])]
            + spec_split(spec_render_users(d), ';'));
        let dm = d.map_values(|e: UserEntryView| spec_render_entry(e));
        assert(forall|i: int| 0 <= i < d.len() ==> dm[i] == spec_render_entry(#[trigger] d[i]));
        assert(spec_split(spec_render_users(tbl), ';') =~= pieces);
    }
}

proof fn lemma_split_join_roles(roles: Seq<Seq<char>>)
    requires
        roles.len() > 0,
        forall|k: int| 0 <= k < roles.len() ==> !(#[trigger] roles[k]).contains(','),
    ensures
        spec_split(spec_join_roles(roles), ',') == roles,
    decreases roles.len(),
{
    if roles.len() == 1 {
        crate::utils::text::lemma_split_single(roles[0], ',');
        assert(spec_split(spec_join_roles(roles), ',') =~= roles);
    } else {
        let d = roles.drop_first();
        assert(forall|k: int| 0 <= k < d.len() ==> #[trigger] d[k] == roles[k + 1]);
        lemma_split_join_roles(d);
        crate::utils::text::lemma_split_concat(roles[0], spec_join_roles(d), ',');
        assert(spec_split(spec_join_roles(roles), ',') == seq![roles[0]] + spec_split(
            spec_join_roles(d),
            ',',
        ));
        assert(spec_split(spec_join_roles(roles), ',') =~= roles);
    }
}

proof fn lemma_clean_roles_identity(roles: Seq<Seq<char>>)
    requires
        forall|k: int| 0 <= k < roles.len() ==> wf_role(#[trigger] roles[k]),
    ensures
        spec_clean_roles(roles) == roles,
    decreases roles.len(),
{
    if roles.len() > 0 {
        let d = roles.drop_first();
        assert(forall|k: int| 0 <= k < d.len() ==> #[trigger] d[k] == roles[k + 1]);
        lemma_clean_roles_identity(d);
        assert(spec_trim(roles[0]) == roles[0]);
        assert(spec_clean_roles(roles) =~= roles);
    }
}

/// A rendered entry parses back to exactly the entry.
proof fn lemma_parse_rendered_entry(e: UserEntryView)
    requires
        wf_entry(e),
    ensures
        spec_parse_pair(spec_render_entry(e)) == Some(e),
{
    let c = seq![':'];
    let rj = spec_join_roles(e.roles);
    assert(forall|k: int| 0 <= k < e.roles.len() ==> !(#[trigger] e.roles[k]).contains(':'));
    lemma_join_roles_free(e.roles, ':');
    let rest2 = e.department + c + rj;
    let rest1 = e.pass + c + rest2;
    assert(spec_render_entry(e) =~= e.name + c + rest1);
    crate::utils::text::lemma_split_concat(e.name, rest1, ':');
    crate::utils::text::lemma_split_concat(e.pass, rest2, ':');
    crate::utils::text::lemma_split_concat(e.department, rj, ':');
    crate::utils::text::lemma_split_single(rj, ':');
    let fields = spec_split(spec_render_entry(e), ':');
    assert(fields =~= seq![e.name, e.pass, e.department, rj]);
    if e.roles.len() == 0 {
        assert(rj =~= Seq::<char>::empty());
        assert(spec_split(rj, ',') == seq![Seq::<char>::empty()]);
        let ps1 = seq![Seq::<char>::empty()];
        assert(ps1[0] =~= Seq::<char>::empty());
        assert(spec_trim(ps1[0]) == ps1[0]);
        assert(spec_trim(ps1[0]).len() == 0);
        assert(ps1.drop_first() =~= Seq::<Seq<char>>::empty());
        assert(spec_clean_roles(ps1.drop_first()).len() == 0);
        assert(spec_clean_roles(ps1) =~= Seq::<Seq<char>>::empty());
        assert(spec_clean_roles(spec_split(rj, ',')) =~= e.roles);
    } else {
        assert(forall|k: int| 0 <= k < e.roles.len() ==> !(#[trigger] e.roles[k]).contains(','));
        lemma_split_join_roles(e.roles);
        lemma_clean_roles_identity(e.roles);
    }
    let e2 = spec_parse_pair(spec_render_entry(e)).unwrap();
    assert(e2.name == e.name && e2.pass == e.pass && e2.department == e.department && e2.roles
        == e.roles);
}

/// Re-parsing the rendered entries of a well-formed table rebuilds the
/// table exactly.
proof fn lemma_reparse_pieces(tbl: Seq<UserEntryView>)
    requires
        wf_table(tbl),
    ensures
        spec_parse_pairs(tbl.map_values(|e: UserEntryView| spec_render_entry(e))) == Some(tbl),
    decreases tbl.len(),
{
    let pieces = tbl.map_values(|e: UserEntryView| spec_render_entry(e));
    if tbl.len() == 0 {
        assert(pieces.len() == 0);
        assert(spec_parse_pairs(pieces) == Some(Seq::<UserEntryView>::empty()));
    } else {
        let pre = tbl.drop_last();
        assert(wf_table(pre)) by {
            assert(forall|i: int| 0 <= i < pre.len() ==> #[trigger] pre[i] == tbl[i]);
        }
        lemma_reparse_pieces(pre);
        let pp = pre.map_values(|e: UserEntryView| spec_render_entry(e));
        assert(forall|i: int| 0 <= i < pp.len() ==> pp[i] == spec_render_entry(#[trigger] pre[i]));
        assert(forall|i: int|
            0 <= i < pieces.len() ==> pieces[i] == spec_render_entry(#[trigger] tbl[i]));
        assert(pieces.drop_last() =~= pp);
        let last = tbl.last();
        assert(pieces.last() == spec_render_entry(last)) by {
            assert(pieces[tbl.len() - 1] == spec_render_entry(tbl[tbl.len() - 1]));
        }
        lemma_parse_rendered_entry(last);
        assert forall|j: int| 0 <= j < pre.len() implies (#[trigger] pre[j]).name
            != last.name by {
            assert(pre[j] == tbl[j]);
            assert(tbl[j].name != tbl[tbl.len() - 1].name);
        }
        lemma_tbl_insert_append(pre, last);
        assert(spec_parse_pairs(pieces) == Some(pre.push(last)));
        assert(pre.push(last) =~= tbl);
    }
}

/// Parser round trip: a table parsed from a legal string, rendered back
/// into the table syntax and re-parsed, is rebuilt exactly — in
/// particular the users and their passwords survive.
pub proof fn lemma_parse_render_round_trip(s: Seq<char>)
    requires
        spec_parse_users(s) is Some,
    ensures
        spec_parse_users(spec_render_users(spec_parse_users(s).unwrap())) == Some(
            spec_parse_users(s).unwrap(),
        ),
{
    let tbl = spec_parse_users(s).unwrap();
    lemma_parse_users_wf(s);
    if tbl.len() == 0 {
        assert(spec_render_users(tbl).len() == 0);
        assert(spec_parse_users(spec_render_users(tbl)) == Some(
            Seq::<UserEntryView>::empty(),
        ));
        assert(tbl =~= Seq::<UserEntryView>::empty());
    } else {
        lemma_render_splits(tbl);
        lemma_reparse_pieces(tbl);
        lemma_render_entry_free(tbl[0]);
        assert(spec_render_users(tbl).len() > 0) by {
            if tbl.len() > 1 {
                assert(spec_render_users(tbl).len() >= spec_render_entry(tbl[0]).len());
            }
        }
    }
}

} // verus!
