//! The decisions of the Windows Credential Manager backend. Secrets are
//! generic credentials whose target is `"{service}/{name}"`; the calls into
//! advapi32 are made by the caller, who hands their outcome here.
use vstd::prelude::*;

use crate::error::{CredError, Label};
use crate::order::{name_order, sort_names, views};
use crate::{check_set, set_check, valid_label, validate, validation};

verus! {

/// The Windows error code for an absent credential.
pub const ERROR_NOT_FOUND: i32 = 1168;

/// The credential type of a generic credential.
pub const CRED_TYPE_GENERIC: u32 = 1;

/// Persistence for the current user on this machine, across logons.
pub const CRED_PERSIST_LOCAL_MACHINE: u32 = 2;

/// The fields of the generic credential written for a secret: the blob is
/// the bytes stored, `blob_size` of them.
pub struct CredentialRecord {
    pub flags: u32,
    pub cred_type: u32,
    pub target_name: String,
    pub blob_size: u32,
    pub blob: Vec<u8>,
    pub persist: u32,
    pub user_name: String,
}

/// `c` is the credential that stores `secret` under `service`/`name`: a
/// generic credential on the target `"{service}/{name}"`, persisted for this
/// machine, with user name `nativelite`, no flags, and the secret's bytes as
/// its blob.
pub open spec fn is_credential_for(
    c: CredentialRecord,
    service: Seq<char>,
    name: Seq<char>,
    secret: Seq<u8>,
) -> bool {
    &&& c.flags == 0
    &&& c.cred_type == CRED_TYPE_GENERIC
    &&& c.target_name@ == target(service, name)
    &&& c.blob@ == secret
    &&& c.blob_size == secret.len()
    &&& c.persist == CRED_PERSIST_LOCAL_MACHINE
    &&& c.user_name@ == user_name()
}

/// The user name that every credential written carries.
pub open spec fn user_name() -> Seq<char> {
    "nativelite"@
}

/// The vault target of `name` under `service`.
pub open spec fn target(service: Seq<char>, name: Seq<char>) -> Seq<char> {
    service + seq!['/'] + name
}

/// The enumeration filter that selects the targets of `service`.
pub open spec fn filter(service: Seq<char>) -> Seq<char> {
    service + seq!['/', '*']
}

/// `s` with the prefix `p` taken off, if `s` starts with `p`.
pub open spec fn strip_prefix(s: Seq<char>, p: Seq<char>) -> Option<Seq<char>> {
    if p.len() <= s.len() && s.take(p.len() as int) == p {
        Some(s.skip(p.len() as int))
    } else {
        None
    }
}

/// The names that the enumerated `targets` hold under `service`, in the
/// order enumerated: targets that could not be read, and targets that do
/// not start with `"{service}/"`, hold none.
pub open spec fn listed_names(service: Seq<char>, targets: Seq<Option<Seq<char>>>) -> Seq<
    Seq<char>,
>
    decreases targets.len(),
{
    if targets.len() == 0 {
        Seq::empty()
    } else {
        let rest = listed_names(service, targets.drop_last());
        match targets.last() {
            Some(t) => match strip_prefix(t, service + seq!['/']) {
                Some(n) => rest.push(n),
                None => rest,
            },
            None => rest,
        }
    }
}

/// The views of optional strings.
pub open spec fn opt_views(v: Seq<Option<String>>) -> Seq<Option<Seq<char>>> {
    v.map_values(|o: Option<String>| match o {
        Some(s) => Some(s@),
        None => None,
    })
}

/// The target under which `name` is stored for `service`.
pub fn target_for(service: &str, name: &str) -> (t: String)
    ensures
        t@ == target(service@, name@),
{
    proof {
        reveal_strlit("/");
    }
    let mut t = String::from_str(service);
    t.append("/");
    t.append(name);
    t
}

/// The credential written to store `secret` under `service`/`name`.
pub fn credential_for(service: &str, name: &str, secret: &[u8]) -> (c: CredentialRecord)
    requires
        secret@.len() <= u32::MAX,
    ensures
        is_credential_for(c, service@, name@, secret@),
{
    let len: usize = secret.len();
    CredentialRecord {
        flags: 0,
        cred_type: CRED_TYPE_GENERIC,
        target_name: target_for(service, name),
        blob_size: len as u32,
        blob: vstd::slice::slice_to_vec(secret),
        persist: CRED_PERSIST_LOCAL_MACHINE,
        user_name: String::from_str("nativelite"),
    }
}

/// The request to store `secret` under `service`/`name` in the Credential
/// Manager: refused, with the error of `check_set`, exactly when the labels
/// or the size are refused; otherwise the credential to write. Invalid input
/// never reaches the vault.
pub fn set_request(service: &str, name: &str, secret: &[u8]) -> (r: Result<
    CredentialRecord,
    CredError,
>)
    ensures
        match set_check(service@, name@, secret@.len()) {
            Err(e) => r matches Err(e2) && e2 == e,
            Ok(()) => r matches Ok(c) && is_credential_for(c, service@, name@, secret@),
        },
{
    check_set(service, name, secret)?;
    Ok(credential_for(service, name, secret))
}

/// The request to read or delete the secret under `service`/`name`: refused,
/// with the error of `validate`, exactly when a label is refused; otherwise
/// the target to address.
pub fn target_request(service: &str, name: &str) -> (r: Result<String, CredError>)
    ensures
        match validation(service@, name@) {
            Err(e) => r matches Err(e2) && e2 == e,
            Ok(()) => r matches Ok(t) && t@ == target(service@, name@),
        },
{
    validate(service, name)?;
    Ok(target_for(service, name))
}

/// The request to list the names under `service`: refused when the service
/// is refused; otherwise the enumeration filter.
pub fn filter_request(service: &str) -> (r: Result<String, CredError>)
    ensures
        if valid_label(service@) {
            r matches Ok(f) && f@ == filter(service@)
        } else {
            r matches Err(e) && e == CredError::InvalidLabel(Label::Service)
        },
{
    proof {
        reveal_strlit("x");
    }
    validate(service, "x")?;
    Ok(filter_for(service))
}

/// What `set` answers when writing the credential gave `outcome`: success,
/// or the OS error code.
pub fn set_outcome(outcome: Result<(), i32>) -> (r: Result<(), CredError>)
    ensures
        r == (match outcome {
            Ok(()) => Ok(()),
            Err(code) => Err(CredError::Os(code)),
        }),
{
    match outcome {
        Ok(()) => Ok(()),
        Err(code) => Err(CredError::Os(code)),
    }
}

/// The enumeration filter for the credentials of `service`.
pub fn filter_for(service: &str) -> (f: String)
    ensures
        f@ == filter(service@),
{
    proof {
        reveal_strlit("/*");
    }
    let mut f = String::from_str(service);
    f.append("/*");
    f
}

/// Whether a raw OS error code says that the credential does not exist.
pub fn not_found(raw: Option<i32>) -> (b: bool)
    ensures
        b == (raw == Some(ERROR_NOT_FOUND)),
{
    match raw {
        Some(code) => code == ERROR_NOT_FOUND,
        None => false,
    }
}

/// What `get` answers when reading the credential gave `outcome`: its bytes,
/// or the OS error code.
pub fn get_outcome(outcome: Result<Vec<u8>, i32>) -> (r: Result<Option<Vec<u8>>, CredError>)
    ensures
        r == (match outcome {
            Ok(bytes) => Ok(Some(bytes)),
            Err(code) => if code == ERROR_NOT_FOUND {
                Ok(None)
            } else {
                Err(CredError::Os(code))
            },
        }),
{
    match outcome {
        Ok(bytes) => Ok(Some(bytes)),
        Err(code) => if not_found(Some(code)) {
            Ok(None)
        } else {
            Err(CredError::Os(code))
        },
    }
}

/// What `delete` answers when deleting the credential gave `outcome`.
pub fn delete_outcome(outcome: Result<(), i32>) -> (r: Result<bool, CredError>)
    ensures
        r == (match outcome {
            Ok(()) => Ok(true),
            Err(code) => if code == ERROR_NOT_FOUND {
                Ok(false)
            } else {
                Err(CredError::Os(code))
            },
        }),
{
    match outcome {
        Ok(()) => Ok(true),
        Err(code) => if not_found(Some(code)) {
            Ok(false)
        } else {
            Err(CredError::Os(code))
        },
    }
}

/// `s` with the prefix `p` taken off, if `s` starts with `p`.
pub fn strip_prefix_str(s: &str, p: &str) -> (r: Option<String>)
    ensures
        match r {
            Some(t) => strip_prefix(s@, p@) == Some(t@),
            None => strip_prefix(s@, p@) is None,
        },
{
    let n: usize = s.unicode_len();
    let m: usize = p.unicode_len();
    if m > n {
        return None;
    }
    let mut i: usize = 0;
    while i < m
        invariant
            n == s@.len(),
            m == p@.len(),
            m <= n,
            i <= m,
            forall|j: int| 0 <= j < i ==> s@[j] == p@[j],
        decreases m - i,
    {
        if s.get_char(i) != p.get_char(i) {
            assert(s@.take(m as int)[i as int] != p@[i as int]);
            return None;
        }
        i = i + 1;
    }
    assert(s@.take(m as int) =~= p@);
    let rest = s.substring_char(m, n);
    assert(rest@ =~= s@.skip(m as int));
    Some(String::from_str(rest))
}

/// The names held by the enumerated `targets` under `service`, sorted.
pub fn names_under(service: &str, targets: &Vec<Option<String>>) -> (r: Vec<String>)
    ensures
        views(r@) == listed_names(service@, opt_views(targets@)).sort_by(name_order()),
{
    proof {
        reveal_strlit("/");
    }
    let mut prefix = String::from_str(service);
    prefix.append("/");
    let mut names: Vec<String> = Vec::new();
    let mut i: usize = 0;
    proof {
        assert(opt_views(targets@).take(0) =~= Seq::<Option<Seq<char>>>::empty());
        assert(views(names@) =~= Seq::<Seq<char>>::empty());
    }
    while i < targets.len()
        invariant
            i <= targets.len(),
            prefix@ == service@ + seq!['/'],
            views(names@) == listed_names(service@, opt_views(targets@).take(i as int)),
        decreases targets.len() - i,
    {
        let ghost before = views(names@);
        let ghost ts = opt_views(targets@).take(i + 1);
        proof {
            assert(ts.drop_last() =~= opt_views(targets@).take(i as int));
        }
        match &targets[i] {
            Some(t) => {
                match strip_prefix_str(t.as_str(), prefix.as_str()) {
                    Some(name) => {
                        names.push(name);
                        assert(views(names@) =~= before.push(name@));
                    },
                    None => {},
                }
            },
            None => {},
        }
        i = i + 1;
    }
    proof {
        assert(opt_views(targets@).take(targets@.len() as int) =~= opt_views(targets@));
    }
    sort_names(&names)
}

/// What `entries` answers when enumerating the credentials of `service`
/// gave `outcome`: the targets read (`None` where one could not be read), or
/// the OS error code. An absent match is an empty list.
pub fn entries_outcome(service: &str, outcome: Result<Vec<Option<String>>, i32>) -> (r: Result<
    Vec<String>,
    CredError,
>)
    ensures
        match outcome {
            Ok(targets) => r matches Ok(names) && views(names@) == listed_names(
                service@,
                opt_views(targets@),
            ).sort_by(name_order()),
            Err(code) => if code == ERROR_NOT_FOUND {
                r matches Ok(names) && names@.len() == 0
            } else {
                r == Err::<Vec<String>, CredError>(CredError::Os(code))
            },
        },
{
    match outcome {
        Ok(targets) => Ok(names_under(service, &targets)),
        Err(code) => if not_found(Some(code)) {
            Ok(Vec::new())
        } else {
            Err(CredError::Os(code))
        },
    }
}

/// `s` holds no `/`.
pub open spec fn slash_free(s: Seq<char>) -> bool {
    forall|i: int| 0 <= i < s.len() ==> #[trigger] s[i] != '/'
}

/// The position of the first `/` in a target is the length of its service:
/// a target is the service, one `/`, then the name.
pub proof fn lemma_target_slash(service: Seq<char>, name: Seq<char>)
    requires
        slash_free(service),
    ensures
        target(service, name)[service.len() as int] == '/',
        forall|i: int| 0 <= i < service.len() ==> #[trigger] target(service, name)[i] == service[i]
            && service[i] != '/',
        forall|i: int|
            0 <= i < name.len() ==> #[trigger] target(service, name)[service.len() + 1 + i]
                == name[i],
        target(service, name).len() == service.len() + 1 + name.len(),
{
}

/// Distinct secrets never share a vault target: for services without `/`
/// (every valid service), the target `"{service}/{name}"` determines both the
/// service and the name.
pub proof fn lemma_target_injective(s1: Seq<char>, n1: Seq<char>, s2: Seq<char>, n2: Seq<char>)
    requires
        slash_free(s1),
        slash_free(s2),
        target(s1, n1) == target(s2, n2),
    ensures
        s1 == s2,
        n1 == n2,
{
    lemma_target_slash(s1, n1);
    lemma_target_slash(s2, n2);
    if s1.len() < s2.len() {
        assert(target(s2, n2)[s1.len() as int] == s2[s1.len() as int]);
    } else if s2.len() < s1.len() {
        assert(target(s1, n1)[s2.len() as int] == s1[s2.len() as int]);
    }
    assert(s1.len() == s2.len());
    assert forall|i: int| 0 <= i < s1.len() implies s1[i] == s2[i] by {
        assert(target(s1, n1)[i] == s1[i]);
        assert(target(s2, n2)[i] == s2[i]);
    }
    assert(s1 =~= s2);
    assert forall|i: int| 0 <= i < n1.len() implies n1[i] == n2[i] by {
        assert(target(s1, n1)[s1.len() + 1 + i] == target(s2, n2)[s2.len() + 1 + i]);
    }
    assert(n1 =~= n2);
}

/// Listing gives back the stored name: taking `"{service}/"` off the target
/// of `name` under `service` leaves `name`.
pub proof fn lemma_listing_recovers_name(service: Seq<char>, name: Seq<char>)
    ensures
        strip_prefix(target(service, name), service + seq!['/']) == Some(name),
{
    let t = target(service, name);
    let p = service + seq!['/'];
    assert(t.take(p.len() as int) =~= p);
    assert(t.skip(p.len() as int) =~= name);
}

/// Listing one service never shows another's secrets: for services without
/// `/` (every valid service), the target of any name under a different
/// service does not start with `"{service}/"`.
pub proof fn lemma_listing_excludes_other_services(
    service: Seq<char>,
    other: Seq<char>,
    name: Seq<char>,
)
    requires
        slash_free(service),
        slash_free(other),
        service != other,
    ensures
        strip_prefix(target(other, name), service + seq!['/']) is None,
{
    let t = target(other, name);
    let p = service + seq!['/'];
    lemma_target_slash(other, name);
    if p.len() <= t.len() && t.take(p.len() as int) == p {
        assert(p[service.len() as int] == '/');
        assert(t[service.len() as int] == '/');
        if service.len() < other.len() {
            assert(t[service.len() as int] == other[service.len() as int]);
        } else if other.len() < service.len() {
            assert(p[other.len() as int] == service[other.len() as int]);
            assert(t[other.len() as int] == p[other.len() as int]);
        } else {
            assert forall|i: int| 0 <= i < service.len() implies service[i] == other[i] by {
                assert(t[i] == p[i]);
            }
            assert(service =~= other);
        }
    }
}

/// Whether the Credential Manager's enumeration filter `f` selects the
/// target `t`: a filter is a name prefix followed by an asterisk, and it
/// selects the targets that start with that prefix.
pub open spec fn filter_selects(f: Seq<char>, t: Seq<char>) -> bool {
    &&& f.len() > 0
    &&& f.last() == '*'
    &&& f.len() - 1 <= t.len()
    &&& t.take(f.len() - 1) == f.drop_last()
}

/// Enumerating with the filter of `service` selects the target of every
/// name stored under `service`, and no target of another service (for
/// services without `/`, as every valid service is).
pub proof fn lemma_filter_selects_the_service(
    service: Seq<char>,
    other: Seq<char>,
    name: Seq<char>,
)
    requires
        slash_free(service),
        slash_free(other),
    ensures
        filter_selects(filter(service), target(service, name)),
        filter_selects(filter(service), target(other, name)) <==> other == service,
{
    let f = filter(service);
    assert(f.drop_last() =~= service + seq!['/']);
    lemma_listing_recovers_name(service, name);
    if other != service {
        lemma_listing_excludes_other_services(service, other, name);
    }
}

/// The codes the Credential Manager uses: an absent credential is error
/// 1168, a generic credential has type 1, and local-machine persistence is 2.
pub proof fn lemma_windows_codes()
    ensures
        ERROR_NOT_FOUND == 1168,
        CRED_TYPE_GENERIC == 1,
        CRED_PERSIST_LOCAL_MACHINE == 2,
{
}

/// The names stored under `service`, in order, among `stored` pairs of
/// service and name.
pub open spec fn names_stored_under(
    service: Seq<char>,
    stored: Seq<(Seq<char>, Seq<char>)>,
) -> Seq<Seq<char>>
    decreases stored.len(),
{
    if stored.len() == 0 {
        Seq::empty()
    } else {
        let rest = names_stored_under(service, stored.drop_last());
        if stored.last().0 == service {
            rest.push(stored.last().1)
        } else {
            rest
        }
    }
}

/// The targets of `stored` pairs of service and name, each readable.
pub open spec fn targets_of(stored: Seq<(Seq<char>, Seq<char>)>) -> Seq<Option<Seq<char>>> {
    stored.map_values(|p: (Seq<char>, Seq<char>)| Some(target(p.0, p.1)))
}

/// Enumerating the vault lists exactly the names stored under the service,
/// whatever other services the vault holds: when every stored service is
/// valid, the names read from the targets are the names stored under
/// `service`.
pub proof fn lemma_listing_is_the_service_only(
    service: Seq<char>,
    stored: Seq<(Seq<char>, Seq<char>)>,
)
    requires
        valid_label(service),
        forall|i: int| 0 <= i < stored.len() ==> valid_label(#[trigger] stored[i].0),
    ensures
        listed_names(service, targets_of(stored)) == names_stored_under(service, stored),
    decreases stored.len(),
{
    if stored.len() > 0 {
        let init = stored.drop_last();
        assert(targets_of(stored).drop_last() =~= targets_of(init));
        lemma_listing_is_the_service_only(service, init);
        let (s, n) = stored.last();
        assert(valid_label(stored[stored.len() - 1].0));
        assert(slash_free(service));
        assert(slash_free(s));
        if s == service {
            lemma_listing_recovers_name(service, n);
        } else {
            lemma_listing_excludes_other_services(service, s, n);
        }
    }
}

} // verus!
