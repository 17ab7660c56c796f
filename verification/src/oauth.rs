//! The authenticated client: signs requests with a bearer token, detects an
//! expired token, refreshes it exactly once per request, and persists the
//! refreshed pair.
//!
//! Executing HTTP requests and the refresh-grant exchange are the caller's
//! business: the client hands out commands (`execute this authorization`,
//! `exchange this refresh token`) and consumes the outcomes, so the caller
//! runs a small loop around it while every decision in between is made, and
//! verified, here.

use vstd::prelude::*;

use crate::errors::OrionError;
use crate::social::Network;
use crate::token_db::TokenDB;

verus! {

/// The status a network answers with when the access token has expired.
pub const UNAUTHORIZED_STATUS: u16 = 401;

/// The in-memory credential pair of one network identity.
#[derive(Debug)]
pub struct TokenCredentials {
    pub access_token: String,
    pub refresh_token: String,
}

/// What a successful refresh-grant exchange returned: a new access token
/// and, where the provider issued one, a new refresh token.
#[derive(Debug)]
pub struct RefreshedTokens {
    pub access_token: String,
    pub refresh_token: Option<String>,
}

/// What the caller must do next for one authed request.
#[derive(Debug)]
pub enum AuthCommand {
    /// Execute the request, stamped with this `Authorization` header value,
    /// and report the response's status.
    Execute { authorization: String },
    /// Perform a refresh-token exchange with this refresh token and report
    /// its outcome.
    ExchangeRefreshToken { refresh_token: String },
    /// The response just reported is the result; return it as-is.
    Done { status: u16 },
    /// The request failed; no retry.
    Fail { error: OrionError },
}

/// Where one authed request stands.
#[derive(Debug, Clone, Copy, PartialEq, Eq, Structural)]
pub enum AuthPhase {
    AwaitingFirstResponse,
    AwaitingRefresh,
    AwaitingRetryResponse,
    Finished,
}

/// The state of one in-flight authed request, together with the ghost
/// trace of every command it has issued.
pub struct RequestFlow {
    pub phase: AuthPhase,
    pub trace: Ghost<Seq<SpecCommand>>,
}

/// The `Authorization` header value for an access token.
pub open spec fn bearer(token: Seq<char>) -> Seq<char> {
    "Bearer "@ + token
}

/// The pair that replaces the credentials after a successful refresh: the
/// new access token, and the provider's new refresh token where one was
/// issued, the old one otherwise.
pub open spec fn spec_merge_refreshed(
    old_refresh: Seq<char>,
    new_access: Seq<char>,
    new_refresh: Option<Seq<char>>,
) -> (Seq<char>, Seq<char>) {
    (
        new_access,
        match new_refresh {
            Some(r) => r,
            None => old_refresh,
        },
    )
}

/// One transport-visible exchange, as the contracts speak of it.
pub ghost enum SpecCommand {
    Execute(Seq<char>),
    Exchange(Seq<char>),
    Done(u16),
    Fail,
}

/// The transport-visible content of a command: the header value of an
/// execute, the token of an exchange, the status of a finished request.
pub open spec fn spec_command_view(cmd: AuthCommand) -> SpecCommand {
    match cmd {
        AuthCommand::Execute { authorization } => SpecCommand::Execute(authorization@),
        AuthCommand::ExchangeRefreshToken { refresh_token } => SpecCommand::Exchange(
            refresh_token@,
        ),
        AuthCommand::Done { status } => SpecCommand::Done(status),
        AuthCommand::Fail { error: _ } => SpecCommand::Fail,
    }
}

/// The exchanges one authed request performs, as a function of the
/// credential pair, the first response's status, the refresh outcome where
/// one was needed (`None` for a failed exchange, otherwise the new access
/// token and the optional new refresh token), whether persisting the pair
/// succeeded, and the retried response's status.
pub open spec fn spec_request_commands(
    access: Seq<char>,
    refresh: Seq<char>,
    first_status: u16,
    refresh_outcome: Option<(Seq<char>, Option<Seq<char>>)>,
    store_ok: bool,
    second_status: u16,
) -> Seq<SpecCommand> {
    if first_status != UNAUTHORIZED_STATUS {
        seq![SpecCommand::Execute(bearer(access)), SpecCommand::Done(first_status)]
    } else {
        match refresh_outcome {
            None => seq![
                SpecCommand::Execute(bearer(access)),
                SpecCommand::Exchange(refresh),
                SpecCommand::Fail,
            ],
            Some(tr) => if store_ok {
                seq![
                    SpecCommand::Execute(bearer(access)),
                    SpecCommand::Exchange(refresh),
                    SpecCommand::Execute(bearer(spec_merge_refreshed(refresh, tr.0, tr.1).0)),
                    SpecCommand::Done(second_status),
                ]
            } else {
                seq![
                    SpecCommand::Execute(bearer(access)),
                    SpecCommand::Exchange(refresh),
                    SpecCommand::Fail,
                ]
            },
        }
    }
}

/// Auth retry-once: a request answered with `unauthorized` once, whose
/// refresh exchange and persistence succeed, performs exactly three
/// transport exchanges: the original request under the old bearer, the
/// refresh exchange with the old refresh token, and one retry under the
/// refreshed bearer; the retried response is returned whatever its status,
/// so there is never a second retry. A flow's recorded trace, built by the
/// steps' push clauses along this path, is exactly this command sequence.
pub proof fn lemma_auth_retry_once(
    access: Seq<char>,
    refresh: Seq<char>,
    new_access: Seq<char>,
    new_refresh: Option<Seq<char>>,
    second_status: u16,
)
    ensures
        ({
            let cmds = spec_request_commands(
                access,
                refresh,
                UNAUTHORIZED_STATUS,
                Some((new_access, new_refresh)),
                true,
                second_status,
            );
            &&& cmds.len() == 4
            &&& cmds[0] == SpecCommand::Execute(bearer(access))
            &&& cmds[1] == SpecCommand::Exchange(refresh)
            &&& cmds[2] == SpecCommand::Execute(
                bearer(spec_merge_refreshed(refresh, new_access, new_refresh).0),
            )
            &&& cmds[3] == SpecCommand::Done(second_status)
            &&& seq![SpecCommand::Execute(bearer(access))].push(
                SpecCommand::Exchange(refresh),
            ).push(
                SpecCommand::Execute(bearer(spec_merge_refreshed(refresh, new_access, new_refresh).0)),
            ).push(SpecCommand::Done(second_status)) == cmds
        }),
{
    let cmds = spec_request_commands(
        access,
        refresh,
        UNAUTHORIZED_STATUS,
        Some((new_access, new_refresh)),
        true,
        second_status,
    );
    assert(seq![SpecCommand::Execute(bearer(access))].push(SpecCommand::Exchange(refresh)).push(
        SpecCommand::Execute(bearer(spec_merge_refreshed(refresh, new_access, new_refresh).0)),
    ).push(SpecCommand::Done(second_status)) =~= cmds);
}

/// Auth non-retry: a request answered with any status other than
/// `unauthorized` performs exactly one transport exchange and no refresh
/// exchange at all; the response is returned verbatim. A flow's recorded
/// trace along this path is exactly this command sequence.
pub proof fn lemma_auth_no_retry(
    access: Seq<char>,
    refresh: Seq<char>,
    status: u16,
    refresh_outcome: Option<(Seq<char>, Option<Seq<char>>)>,
    store_ok: bool,
    second_status: u16,
)
    requires
        status != UNAUTHORIZED_STATUS,
    ensures
        ({
            let cmds = spec_request_commands(
                access,
                refresh,
                status,
                refresh_outcome,
                store_ok,
                second_status,
            );
            &&& cmds.len() == 2
            &&& cmds[0] == SpecCommand::Execute(bearer(access))
            &&& cmds[1] == SpecCommand::Done(status)
            &&& forall|i: int| 0 <= i < cmds.len() ==> !(#[trigger] cmds[i] is Exchange)
            &&& seq![SpecCommand::Execute(bearer(access))].push(SpecCommand::Done(status)) == cmds
        }),
{
    let cmds = spec_request_commands(access, refresh, status, refresh_outcome, store_ok,
        second_status);
    assert(cmds[0] == SpecCommand::Execute(bearer(access)));
    assert(cmds[1] == SpecCommand::Done(status));
    assert(seq![SpecCommand::Execute(bearer(access))].push(SpecCommand::Done(status)) =~= cmds);
}

/// The form parameters of the OAuth2 exchange that trades an authorization
/// code for the first token pair: the code itself, the grant type, the
/// client's id, the code verifier of the challenge the flow began with, and
/// the redirect URI the code was delivered to.
pub fn authorization_code_params(
    auth_code: &String,
    client_id: &String,
    code_verifier: &String,
    redirect_uri: &String,
) -> (r: Vec<(String, String)>)
    ensures
        r@.len() == 5,
        r@[0].0@ == "code"@ && r@[0].1@ == auth_code@,
        r@[1].0@ == "grant_type"@ && r@[1].1@ == "authorization_code"@,
        r@[2].0@ == "client_id"@ && r@[2].1@ == client_id@,
        r@[3].0@ == "code_verifier"@ && r@[3].1@ == code_verifier@,
        r@[4].0@ == "redirect_uri"@ && r@[4].1@ == redirect_uri@,
{
    let mut params: Vec<(String, String)> = Vec::new();
    params.push((String::from_str("code"), auth_code.clone()));
    params.push((String::from_str("grant_type"), String::from_str("authorization_code")));
    params.push((String::from_str("client_id"), client_id.clone()));
    params.push((String::from_str("code_verifier"), code_verifier.clone()));
    params.push((String::from_str("redirect_uri"), redirect_uri.clone()));
    params
}

/// Makes requests on behalf of one network identity such that the caller
/// never has to reason about token expiry. Owns the credential pair;
/// refreshes it at most once per request and persists every refresh.
pub struct AuthedClient<DB: TokenDB> {
    pub social_network: Network,
    pub db: DB,
    pub tokens: TokenCredentials,
}

impl<DB: TokenDB> AuthedClient<DB> {
    /// The credential pair the client currently signs with.
    pub open spec fn credentials(&self) -> (Seq<char>, Seq<char>) {
        (self.tokens.access_token@, self.tokens.refresh_token@)
    }

    /// Loads the credential pair for `social_network` from the token store;
    /// fails fast when none is stored.
    pub fn new(social_network: Network, db: DB) -> (r: Result<Self, OrionError>)
        ensures
            match r {
                Ok(c) => c.social_network == social_network && c.db == db
                    && (db.stored_tokens(social_network) matches Some(t) && c.credentials() == t),
                Err(_) => db.stored_tokens(social_network) is None,
            },
    {
        let access_token = match db.get_access_token(&social_network) {
            Ok(a) => a,
            Err(_) => {
                return Err(OrionError::AuthError);
            },
        };
        let refresh_token = match db.get_refresh_token(&social_network) {
            Ok(t) => t,
            Err(_) => {
                return Err(OrionError::AuthError);
            },
        };
        Ok(
            AuthedClient {
                social_network,
                db,
                tokens: TokenCredentials { access_token, refresh_token },
            },
        )
    }

    /// Starts one authed request: the first command stamps the request with
    /// the current bearer token.
    pub fn begin_request(&self) -> (r: (RequestFlow, AuthCommand))
        ensures
            r.0.phase == AuthPhase::AwaitingFirstResponse,
            r.1 matches AuthCommand::Execute { authorization } && authorization@ == bearer(
                self.credentials().0,
            ),
            r.0.trace@ == seq![SpecCommand::Execute(bearer(self.credentials().0))],
    {
        let mut authorization = String::from_str("Bearer ");
        authorization.append(self.tokens.access_token.as_str());
        let command = AuthCommand::Execute { authorization };
        let ghost initial_trace = seq![spec_command_view(command)];
        (
            RequestFlow {
                phase: AuthPhase::AwaitingFirstResponse,
                trace: Ghost(initial_trace),
            },
            command,
        )
    }

    /// Consumes the status of an executed request. A first response other
    /// than `unauthorized` is returned as-is; `unauthorized` asks for one
    /// refresh exchange; the retried response is returned whatever its
    /// status.
    pub fn on_response(&self, flow: &mut RequestFlow, status: u16) -> (cmd: AuthCommand)
        requires
            old(flow).phase == AuthPhase::AwaitingFirstResponse || old(flow).phase
                == AuthPhase::AwaitingRetryResponse,
        ensures
            old(flow).phase == AuthPhase::AwaitingFirstResponse && status != UNAUTHORIZED_STATUS
                ==> (cmd matches AuthCommand::Done { status: s } && s == status)
                    && final(flow).phase == AuthPhase::Finished,
            old(flow).phase == AuthPhase::AwaitingFirstResponse && status == UNAUTHORIZED_STATUS
                ==> (cmd matches AuthCommand::ExchangeRefreshToken { refresh_token } &&
                refresh_token@ == self.credentials().1) && final(flow).phase
                == AuthPhase::AwaitingRefresh,
            old(flow).phase == AuthPhase::AwaitingRetryResponse ==> (cmd
                matches AuthCommand::Done { status: s } && s == status) && final(flow).phase
                == AuthPhase::Finished,
            final(flow).trace@ == old(flow).trace@.push(spec_command_view(cmd)),
    {
        if flow.phase == AuthPhase::AwaitingFirstResponse && status == UNAUTHORIZED_STATUS {
            flow.phase = AuthPhase::AwaitingRefresh;
            let command = AuthCommand::ExchangeRefreshToken {
                refresh_token: self.tokens.refresh_token.clone(),
            };
            proof {
                flow.trace@ = flow.trace@.push(spec_command_view(command));
            }
            command
        } else {
            flow.phase = AuthPhase::Finished;
            let command = AuthCommand::Done { status };
            proof {
                flow.trace@ = flow.trace@.push(spec_command_view(command));
            }
            command
        }
    }

    /// Consumes the outcome of the refresh exchange. On success the merged
    /// pair replaces the credentials in place and is persisted to the token
    /// store before the retry is issued; a failed exchange, or a pair that
    /// cannot be persisted, aborts the request and leaves the in-memory
    /// credentials untouched.
    pub fn on_refresh_outcome(
        &mut self,
        flow: &mut RequestFlow,
        outcome: Result<RefreshedTokens, OrionError>,
    ) -> (cmd: AuthCommand)
        requires
            old(flow).phase == AuthPhase::AwaitingRefresh,
        ensures
            final(self).social_network == old(self).social_network,
            final(flow).trace@ == old(flow).trace@.push(spec_command_view(cmd)),
            outcome matches Err(e) ==> (cmd matches AuthCommand::Fail { error } && error == e)
                && final(self).credentials() == old(self).credentials() && final(flow).phase
                == AuthPhase::Finished && forall|n: Network|
                final(self).db.stored_tokens(n) == old(self).db.stored_tokens(n),
            outcome matches Ok(tr) ==> ({
                let merged = spec_merge_refreshed(
                    old(self).credentials().1,
                    tr.access_token@,
                    match tr.refresh_token {
                        Some(t) => Some(t@),
                        None => None,
                    },
                );
                &&& (cmd is Execute || cmd is Fail)
                &&& (cmd matches AuthCommand::Execute { authorization }
                    ==> authorization@ == bearer(merged.0) && final(self).credentials() == merged
                    && final(self).db.stored_tokens(old(self).social_network) == Some(merged)
                    && (forall|n: Network| n != old(self).social_network
                        ==> final(self).db.stored_tokens(n) == old(self).db.stored_tokens(n))
                    && final(flow).phase == AuthPhase::AwaitingRetryResponse)
                &&& (cmd matches AuthCommand::Fail { error }
                    ==> error is StorageError && final(self).credentials() == old(
                        self,
                    ).credentials() && (forall|n: Network|
                        final(self).db.stored_tokens(n) == old(self).db.stored_tokens(n))
                    && final(flow).phase == AuthPhase::Finished)
            }),
    {
        match outcome {
            Err(e) => {
                flow.phase = AuthPhase::Finished;
                let command = AuthCommand::Fail { error: e };
                proof {
                    flow.trace@ = flow.trace@.push(spec_command_view(command));
                }
                command
            },
            Ok(tr) => {
                let new_access = tr.access_token;
                let new_refresh = match tr.refresh_token {
                    Some(t) => t,
                    None => self.tokens.refresh_token.clone(),
                };
                match self.db.store(&self.social_network, &new_access, &new_refresh) {
                    Ok(_) => {
                        self.tokens = TokenCredentials {
                            access_token: new_access,
                            refresh_token: new_refresh,
                        };
                        flow.phase = AuthPhase::AwaitingRetryResponse;
                        let mut authorization = String::from_str("Bearer ");
                        authorization.append(self.tokens.access_token.as_str());
                        let command = AuthCommand::Execute { authorization };
                        proof {
                            flow.trace@ = flow.trace@.push(spec_command_view(command));
                        }
                        command
                    },
                    Err(_) => {
                        flow.phase = AuthPhase::Finished;
                        let command = AuthCommand::Fail { error: OrionError::StorageError };
                        proof {
                            flow.trace@ = flow.trace@.push(spec_command_view(command));
                        }
                        command
                    },
                }
            },
        }
    }
}

} // verus!
