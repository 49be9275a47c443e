//! The session gate and the screens that paths lead to.

use vstd::prelude::*;
use crate::study::{StudyRecord, contains_code, strings_view};
use crate::text::{char_text, chars_of, same_text};

verus! {

/// A user name and password pair.
#[derive(Debug)]
pub struct Credentials {
    pub username: String,
    pub password: String,
}

impl Credentials {
    pub open spec fn same_as(self, other: Credentials) -> bool {
        self.username@ == other.username@ && self.password@ == other.password@
    }

    /// Whether both the user name and the password are the same.
    pub fn matches(&self, other: &Credentials) -> (r: bool)
        ensures
            r == self.same_as(*other),
    {
        same_text(self.username.as_str(), other.username.as_str()) && same_text(
            self.password.as_str(),
            other.password.as_str(),
        )
    }
}

/// What a login attempt grants.
#[derive(Clone, Copy, Debug, PartialEq, Eq, Structural)]
pub struct LoginOutcome {
    /// The worklist may be shown.
    pub authorized: bool,
    /// Reports may be written.
    pub privileged: bool,
}

/// Compares a login attempt with the two known accounts. The doctor's pair
/// opens the worklist; the radiologist's pair opens it with the right to
/// report; any other pair is refused.
pub fn login(entered: &Credentials, doctor: &Credentials, radiologist: &Credentials) -> (r:
    LoginOutcome)
    ensures
        r.authorized == (entered.same_as(*doctor) || entered.same_as(*radiologist)),
        r.privileged == entered.same_as(*radiologist),
{
    let is_radiologist = entered.matches(radiologist);
    let is_doctor = entered.matches(doctor);
    LoginOutcome { authorized: is_doctor || is_radiologist, privileged: is_radiologist }
}

/// The session's capability flag: whether the reporting action is offered.
#[derive(Clone, Copy, Debug, PartialEq, Eq, Structural)]
pub struct Authorized {
    pub inner: bool,
}

impl Authorized {
    /// A new session is not privileged.
    pub fn new() -> (r: Authorized)
        ensures
            !r.inner,
    {
        Authorized { inner: false }
    }

    /// The flag after an action that sets it.
    pub fn reduce(&self, action: bool) -> (r: Authorized)
        ensures
            r.inner == action,
    {
        Authorized { inner: action }
    }

    /// The flag after a login attempt: a privileged login sets it, and
    /// nothing else changes it.
    pub fn after_login(&self, outcome: LoginOutcome) -> (r: Authorized)
        ensures
            r.inner == (self.inner || outcome.privileged),
    {
        if outcome.privileged {
            self.reduce(true)
        } else {
            *self
        }
    }
}

/// Whether the worklist offers to report on a study: only to a privileged
/// session, and never on a study that already holds a structured report.
pub fn report_action_offered(session: &Authorized, study: &StudyRecord) -> (r: bool)
    ensures
        r == (session.inner && !strings_view(study.modalities@).contains("SR"@)),
{
    session.inner && !contains_code(&study.modalities, "SR")
}

/// The screens of the application.
#[derive(Debug)]
pub enum Route {
    Login,
    Search,
    Reporting { uid: String },
    NotFound,
}

/// The path prefix of the reporting screen; the study UID follows it.
pub open spec fn reporting_prefix() -> Seq<char> {
    "/reporting/"@
}

/// A path segment: not empty, and without a `/`.
pub open spec fn is_segment(s: Seq<char>) -> bool {
    s.len() > 0 && forall|i: int| 0 <= i < s.len() ==> #[trigger] s[i] != '/'
}

/// The path is the reporting screen's, for the study UID that follows the prefix.
pub open spec fn is_reporting_path(path: Seq<char>) -> bool {
    &&& path.len() > reporting_prefix().len()
    &&& path.subrange(0, reporting_prefix().len() as int) == reporting_prefix()
    &&& is_segment(path.subrange(reporting_prefix().len() as int, path.len() as int))
}

fn is_segment_exec(s: &Vec<char>, from: usize) -> (r: bool)
    requires
        from <= s@.len(),
    ensures
        r == is_segment(s@.subrange(from as int, s@.len() as int)),
{
    if from == s.len() {
        return false;
    }
    let mut i: usize = from;
    while i < s.len()
        invariant
            from <= i <= s@.len(),
            forall|k: int| from <= k < i ==> s@[k] != '/',
        decreases s@.len() - i,
    {
        if s[i] == '/' {
            assert(s@.subrange(from as int, s@.len() as int)[i - from] == '/');
            return false;
        }
        i = i + 1;
    }
    proof {
        let t = s@.subrange(from as int, s@.len() as int);
        assert forall|k: int| 0 <= k < t.len() implies #[trigger] t[k] != '/' by {
            assert(t[k] == s@[from + k]);
        }
    }
    true
}

fn rest_of(s: &Vec<char>, from: usize) -> (r: String)
    requires
        from <= s@.len(),
    ensures
        r@ == s@.subrange(from as int, s@.len() as int),
{
    let mut out = String::new();
    let mut i: usize = from;
    while i < s.len()
        invariant
            from <= i <= s@.len(),
            out@ == s@.subrange(from as int, i as int),
        decreases s@.len() - i,
    {
        let piece = char_text(s[i]);
        out.append(piece.as_str());
        i = i + 1;
        assert(out@ =~= s@.subrange(from as int, i as int));
    }
    out
}

impl Route {
    /// The screen that a path leads to.
    pub fn recognize(path: &str) -> (r: Route)
        ensures
            r is Login <==> (path@ == "/"@ || path@ == "/login"@),
            r is Search <==> path@ == "/search"@,
            r is Reporting <==> is_reporting_path(path@),
            r is Reporting ==> r->uid@ == path@.subrange(
                reporting_prefix().len() as int,
                path@.len() as int,
            ),
    {
        proof {
            reveal_strlit("/");
            reveal_strlit("/login");
            reveal_strlit("/search");
            reveal_strlit("/reporting/");
        }
        if same_text(path, "/") || same_text(path, "/login") {
            assert(path@.len() != "/search"@.len());
            assert(!is_reporting_path(path@));
            return Route::Login;
        }
        if same_text(path, "/search") {
            assert(path@ != "/"@);
            assert(!is_reporting_path(path@));
            return Route::Search;
        }
        let chars = chars_of(path);
        let prefix = chars_of("/reporting/");
        let n = prefix.len();
        if chars.len() > n {
            let mut same = true;
            let mut i: usize = 0;
            while i < n
                invariant
                    n == prefix@.len(),
                    n < chars@.len(),
                    i <= n,
                    same == (forall|k: int| 0 <= k < i ==> chars@[k] == prefix@[k]),
                decreases n - i,
            {
                if chars[i] != prefix[i] {
                    same = false;
                }
                i = i + 1;
            }
            assert(same == (chars@.subrange(0, n as int) =~= prefix@));
            if same && is_segment_exec(&chars, n) {
                let uid = rest_of(&chars, n);
                assert(path@ != "/search"@ && path@ != "/"@ && path@ != "/login"@) by {
                    assert(path@.len() > 11);
                }
                return Route::Reporting { uid };
            }
        }
        proof {
            if is_reporting_path(path@) {
                assert(chars@.subrange(0, n as int) =~= prefix@);
            }
        }
        Route::NotFound
    }

    /// The path of a screen.
    pub open spec fn spec_path(self) -> Seq<char> {
        match self {
            Route::Login => "/"@,
            Route::Search => "/search"@,
            Route::Reporting { uid } => reporting_prefix() + uid@,
            Route::NotFound => "/404"@,
        }
    }

    pub fn path(&self) -> (r: String)
        ensures
            r@ == self.spec_path(),
    {
        let mut out = String::new();
        match self {
            Route::Login => out.append("/"),
            Route::Search => out.append("/search"),
            Route::Reporting { uid } => {
                out.append("/reporting/");
                out.append(uid.as_str());
            },
            Route::NotFound => out.append("/404"),
        }
        assert(out@ =~= self.spec_path());
        out
    }
}

} // verus!
