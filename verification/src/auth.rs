//! The request with which the browser comes back after the user has signed
//! in: what it must hold, and what is taken from it.

use vstd::prelude::*;

verus! {

/// Why a request was not the answer that was waited for.
#[derive(Debug, Clone, PartialEq)]
pub enum AuthError {
    /// The method is not GET; holds the method.
    UnsupportedMethod(String),
    /// The target is no address; holds the words of the error.
    BadTarget(String),
    /// The path is not `/redirect`; holds the target of the request.
    UnrecognizedPath(String),
    /// `code` occurs twice.
    DuplicateCode,
    /// `state` occurs twice.
    DuplicateState,
    /// A parameter other than `code` and `state`; holds its name and value.
    UnexpectedParameter(String, String),
    /// `state` is missing.
    NoState,
    /// `state` is not the token that was sent out.
    StateMismatch,
    /// `code` is missing.
    NoCode,
}

/// An `AuthError` as the contracts see it: with the texts of its strings.
pub enum AuthErrorView {
    UnsupportedMethod(Seq<char>),
    BadTarget(Seq<char>),
    UnrecognizedPath(Seq<char>),
    DuplicateCode,
    DuplicateState,
    UnexpectedParameter(Seq<char>, Seq<char>),
    NoState,
    StateMismatch,
    NoCode,
}

impl View for AuthError {
    type V = AuthErrorView;

    open spec fn view(&self) -> AuthErrorView {
        match *self {
            AuthError::UnsupportedMethod(m) => AuthErrorView::UnsupportedMethod(m@),
            AuthError::BadTarget(w) => AuthErrorView::BadTarget(w@),
            AuthError::UnrecognizedPath(p) => AuthErrorView::UnrecognizedPath(p@),
            AuthError::DuplicateCode => AuthErrorView::DuplicateCode,
            AuthError::DuplicateState => AuthErrorView::DuplicateState,
            AuthError::UnexpectedParameter(k, v) => AuthErrorView::UnexpectedParameter(k@, v@),
            AuthError::NoState => AuthErrorView::NoState,
            AuthError::StateMismatch => AuthErrorView::StateMismatch,
            AuthError::NoCode => AuthErrorView::NoCode,
        }
    }
}

impl AuthErrorView {
    /// The error in words.
    pub open spec fn words(self) -> Seq<char> {
        match self {
            AuthErrorView::UnsupportedMethod(m) => "Unsupported method: "@ + m,
            AuthErrorView::BadTarget(w) => w,
            AuthErrorView::UnrecognizedPath(p) => "Unrecognized path: "@ + p,
            AuthErrorView::DuplicateCode => "Duplicate code"@,
            AuthErrorView::DuplicateState => "Duplicate state"@,
            AuthErrorView::UnexpectedParameter(k, v) => "Unexpected parameter: "@ + k + " "@ + v,
            AuthErrorView::NoState => "No CSRF token received"@,
            AuthErrorView::StateMismatch => "CSRF token mismatch"@,
            AuthErrorView::NoCode => "No authorization code received"@,
        }
    }
}

impl AuthError {
    /// The error in words.
    pub fn message(&self) -> (r: String)
        ensures
            r@ == self@.words(),
    {
        match self {
            AuthError::UnsupportedMethod(m) => {
                let mut text = String::from_str("Unsupported method: ");
                text.append(m.as_str());
                text
            },
            AuthError::BadTarget(w) => w.clone(),
            AuthError::UnrecognizedPath(p) => {
                let mut text = String::from_str("Unrecognized path: ");
                text.append(p.as_str());
                text
            },
            AuthError::DuplicateCode => String::from_str("Duplicate code"),
            AuthError::DuplicateState => String::from_str("Duplicate state"),
            AuthError::UnexpectedParameter(k, v) => {
                let mut text = String::from_str("Unexpected parameter: ");
                text.append(k.as_str());
                text.append(" ");
                text.append(v.as_str());
                text
            },
            AuthError::NoState => String::from_str("No CSRF token received"),
            AuthError::StateMismatch => String::from_str("CSRF token mismatch"),
            AuthError::NoCode => String::from_str("No authorization code received"),
        }
    }
}

/// The texts of a list of parameters.
pub open spec fn pair_texts(pairs: Seq<(String, String)>) -> Seq<(Seq<char>, Seq<char>)> {
    pairs.map_values(|p: (String, String)| (p.0@, p.1@))
}

/// What was found among the parameters of a request.
pub struct Seen {
    pub code: Option<Seq<char>>,
    pub state: Option<Seq<char>>,
}

/// Goes through the parameters in order: `code` and `state` may each occur
/// once, and nothing else may occur. The first parameter that breaks this
/// decides the error.
pub open spec fn scan(pairs: Seq<(Seq<char>, Seq<char>)>) -> Result<Seen, AuthErrorView>
    decreases pairs.len(),
{
    if pairs.len() == 0 {
        Ok(Seen { code: None, state: None })
    } else {
        match scan(pairs.drop_last()) {
            Err(e) => Err(e),
            Ok(seen) => {
                let (name, value) = pairs.last();
                if name == "code"@ {
                    if seen.code is Some {
                        Err(AuthErrorView::DuplicateCode)
                    } else {
                        Ok(Seen { code: Some(value), ..seen })
                    }
                } else if name == "state"@ {
                    if seen.state is Some {
                        Err(AuthErrorView::DuplicateState)
                    } else {
                        Ok(Seen { state: Some(value), ..seen })
                    }
                } else {
                    Err(AuthErrorView::UnexpectedParameter(name, value))
                }
            },
        }
    }
}

/// The authorization code that the parameters of a request carry. The
/// parameters are `code` and `state`, each once, and `state` is the token
/// that was sent out.
pub open spec fn code_of(pairs: Seq<(Seq<char>, Seq<char>)>, token: Seq<char>) -> Result<
    Seq<char>,
    AuthErrorView,
> {
    match scan(pairs) {
        Err(e) => Err(e),
        Ok(seen) => match seen.state {
            None => Err(AuthErrorView::NoState),
            Some(state) => if state != token {
                Err(AuthErrorView::StateMismatch)
            } else {
                match seen.code {
                    None => Err(AuthErrorView::NoCode),
                    Some(code) => Ok(code),
                }
            },
        },
    }
}

/// Where a front part of the parameters is refused, so are all of them,
/// and for the same reason.
proof fn lemma_scan_prefix(pairs: Seq<(Seq<char>, Seq<char>)>, n: int)
    requires
        0 <= n <= pairs.len(),
        scan(pairs.take(n)) is Err,
    ensures
        scan(pairs) == scan(pairs.take(n)),
    decreases pairs.len() - n,
{
    if n < pairs.len() {
        assert(pairs.take(n + 1).drop_last() =~= pairs.take(n));
        lemma_scan_prefix(pairs, n + 1);
    } else {
        assert(pairs.take(n) =~= pairs);
    }
}

/// Takes the authorization code from the parameters of a request.
pub fn extract_authorization_code(pairs: &Vec<(String, String)>, csrf_token: &str) -> (r: Result<
    String,
    AuthError,
>)
    ensures
        match r {
            Ok(code) => code_of(pair_texts(pairs@), csrf_token@) == Ok::<
                Seq<char>,
                AuthErrorView,
            >(code@),
            Err(e) => code_of(pair_texts(pairs@), csrf_token@) == Err::<Seq<char>, AuthErrorView>(
                e@,
            ),
        },
{
    let ghost all = pair_texts(pairs@);
    let code_name = String::from_str("code");
    let state_name = String::from_str("state");
    let mut received_code: Option<String> = None;
    let mut received_state: Option<String> = None;
    let mut i: usize = 0;
    assert(all.take(0) =~= Seq::<(Seq<char>, Seq<char>)>::empty());
    while i < pairs.len()
        invariant
            i <= pairs.len(),
            all == pair_texts(pairs@),
            code_name@ == "code"@,
            state_name@ == "state"@,
            scan(all.take(i as int)) == Ok::<Seen, AuthErrorView>(
                Seen {
                    code: crate::item::text_of(received_code),
                    state: crate::item::text_of(received_state),
                },
            ),
        decreases pairs.len() - i,
    {
        proof {
            assert(all.take(i + 1).drop_last() =~= all.take(i as int));
            assert(all.take(i + 1).last() == (pairs@[i as int].0@, pairs@[i as int].1@));
        }
        if pairs[i].0 == code_name {
            if received_code.is_some() {
                proof {
                    lemma_scan_prefix(all, i + 1);
                }
                return Err(AuthError::DuplicateCode);
            }
            received_code = Some(pairs[i].1.clone());
        } else if pairs[i].0 == state_name {
            if received_state.is_some() {
                proof {
                    lemma_scan_prefix(all, i + 1);
                }
                return Err(AuthError::DuplicateState);
            }
            received_state = Some(pairs[i].1.clone());
        } else {
            proof {
                lemma_scan_prefix(all, i + 1);
            }
            return Err(AuthError::UnexpectedParameter(pairs[i].0.clone(), pairs[i].1.clone()));
        }
        i += 1;
    }
    assert(all.take(i as int) =~= all);
    match received_state {
        None => Err(AuthError::NoState),
        Some(state) => {
            if state != String::from_str(csrf_token) {
                return Err(AuthError::StateMismatch);
            }
            match received_code {
                None => Err(AuthError::NoCode),
                Some(code) => Ok(code),
            }
        },
    }
}

/// What a request target holds: the path, and the parameters of the query
/// with their escapes taken out.
#[derive(Debug, Clone, PartialEq)]
pub struct Target {
    pub path: String,
    pub pairs: Vec<(String, String)>,
}

/// A `Target` as the contracts see it.
pub struct TargetView {
    pub path: Seq<char>,
    pub pairs: Seq<(Seq<char>, Seq<char>)>,
}

impl View for Target {
    type V = TargetView;

    open spec fn view(&self) -> TargetView {
        TargetView { path: self.path@, pairs: pair_texts(self.pairs@) }
    }
}

/// What the `url` crate reads from a request target that is joined to a
/// base address: the path and the parameters of the address, or the words
/// of its error where it reads no address.
pub uninterp spec fn target_parts(base: Seq<char>, target: Seq<char>) -> Result<
    TargetView,
    Seq<char>,
>;

/// A target that was read, or the words of the error, as the contracts see
/// them.
pub open spec fn read_text(read: Result<Target, String>) -> Result<TargetView, Seq<char>> {
    match read {
        Ok(target) => Ok(target@),
        Err(words) => Err(words@),
    }
}

/// Calls `Url::parse` on the base and `Url::join` with the target, and
/// hands out what `Url::path` and `Url::query_pairs` give for the address.
/// The result is a function of the two texts alone, which `target_parts`
/// names; an error of either call is handed out in its own words.
#[verifier::external_body]
fn split_target(base: &str, target: &str) -> (r: Result<Target, String>)
    ensures
        read_text(r) == target_parts(base@, target@),
{
    match url::Url::parse(base) {
        Ok(base_url) => match base_url.join(target) {
            Ok(url) => Ok(
                Target {
                    path: url.path().to_string(),
                    pairs: url.query_pairs().map(|(k, v)| (k.into_owned(), v.into_owned())).collect(),
                },
            ),
            Err(e) => Err(e.to_string()),
        },
        Err(e) => Err(e.to_string()),
    }
}

/// What a request is worth, given what its target holds: the authorization
/// code, where the request is a GET of `/redirect` whose parameters carry
/// one.
pub open spec fn answer_of(
    method: Seq<char>,
    target: Seq<char>,
    read: Result<TargetView, Seq<char>>,
    token: Seq<char>,
) -> Result<Seq<char>, AuthErrorView> {
    if method != "GET"@ {
        Err(AuthErrorView::UnsupportedMethod(method))
    } else {
        match read {
            Err(words) => Err(AuthErrorView::BadTarget(words)),
            Ok(parts) => if parts.path != "/redirect"@ {
                Err(AuthErrorView::UnrecognizedPath(target))
            } else {
                code_of(parts.pairs, token)
            },
        }
    }
}

/// Judges a request by its method and by what its target holds.
pub fn judge_request(method: &str, target: &str, read: Result<Target, String>, csrf_token: &str) -> (r:
    Result<String, AuthError>)
    ensures
        match r {
            Ok(code) => answer_of(method@, target@, read_text(read), csrf_token@) == Ok::<
                Seq<char>,
                AuthErrorView,
            >(code@),
            Err(e) => answer_of(method@, target@, read_text(read), csrf_token@) == Err::<
                Seq<char>,
                AuthErrorView,
            >(e@),
        },
{
    if String::from_str(method) != String::from_str("GET") {
        return Err(AuthError::UnsupportedMethod(String::from_str(method)));
    }
    match read {
        Err(words) => Err(AuthError::BadTarget(words)),
        Ok(parts) => {
            if parts.path != String::from_str("/redirect") {
                Err(AuthError::UnrecognizedPath(String::from_str(target)))
            } else {
                extract_authorization_code(&parts.pairs, csrf_token)
            }
        },
    }
}

/// The address of the local server, to which a request target is joined.
pub open spec fn local_base() -> Seq<char> {
    "http://localhost:3003/"@
}

/// Judges a request by its method and its target. The target of a GET is
/// read as an address on the local server.
pub fn handle_request(method: &str, target: &str, csrf_token: &str) -> (r: Result<String, AuthError>)
    ensures
        match r {
            Ok(code) => answer_of(
                method@,
                target@,
                target_parts(local_base(), target@),
                csrf_token@,
            ) == Ok::<Seq<char>, AuthErrorView>(code@),
            Err(e) => answer_of(method@, target@, target_parts(local_base(), target@), csrf_token@)
                == Err::<Seq<char>, AuthErrorView>(e@),
        },
{
    if String::from_str(method) != String::from_str("GET") {
        return Err(AuthError::UnsupportedMethod(String::from_str(method)));
    }
    let read = split_target("http://localhost:3003/", target);
    judge_request(method, target, read, csrf_token)
}

} // verus!
