//! The handling of a request from its arrival to its response, step by step. What comes after each
//! step is decided here; asking the application's hooks, reading bodies and storing objects is up to
//! whoever runs the endpoint.
use crate::auth::{AuthContext, AuthContextView};
use crate::body::payload::failure;
use crate::config::{AuthState, AuthStateView};
use crate::error::{
    access_denied, error_response, error_xml, set_header, slow_down, ErrorView, S3Error,
};
use crate::handlers::plan::{
    accessed_bucket, denied, dispatch_implemented_operation, is_planned, law_plans_are_authorized,
    named_session, operation_access, operation_plan, situation, with_answers, OperationPlan,
    PlanView, Situation,
};
use crate::handlers::request::{authenticate_request, hooks_answer, request_context, Caller};
use crate::handlers::s3::{
    final_response, finish_response, implemented_operation, select_operation, DetectedOperation,
    DetectedView,
};
use crate::hooks::{
    AuthenticationResult, AuthorizationPolicy, OperationContext, OperationFilter, TargetFilter,
    TenantAnswer, TenantOperationOutcome,
};
use crate::http::{Method, S3Request};
use crate::response::{text_response, BodyView, S3Response, S3ResponseView};
use crate::s3::types::{operation_action, OperationView, RequestId, S3Operation};
use crate::storage::multipart::FileMultipartStore;
use crate::text::{opt_str, result_view};
use crate::time::Instant;
use vstd::prelude::*;

verus! {

/// What comes next in the handling of a request.
#[derive(Debug)]
pub enum NextStep {
    /// Ask the authentication provider, if there is one; [`authenticated`] follows.
    Authenticate(S3Operation),
    /// Begin an operation of the tenant that the principal belongs to; [`dispatch`] follows.
    BeginOperation {
        /// What the request was authenticated as.
        context: AuthContext,
        /// What it asks for.
        operation: S3Operation,
    },
    /// Do what is planned, in the time that the tenant is given; [`carried_out`] follows.
    CarryOut {
        /// What the request was authenticated as.
        context: AuthContext,
        /// What is done for it.
        plan: OperationPlan,
    },
    /// Let the error mapper, if there is one, rewrite an error; [`mapped`] follows.
    MapError(S3Error),
    /// Send a response.
    Respond(S3Response),
}

/// A [`NextStep`] as a mathematical value.
#[verifier::ext_equal]
pub enum NextView {
    Authenticate(OperationView),
    BeginOperation { context: AuthContextView, operation: OperationView },
    CarryOut { context: AuthContextView, plan: PlanView },
    MapError(ErrorView),
    Respond(S3ResponseView),
}

impl View for NextStep {
    type V = NextView;

    open spec fn view(&self) -> NextView {
        match self {
            NextStep::Authenticate(operation) => NextView::Authenticate(operation@),
            NextStep::BeginOperation { context, operation } => NextView::BeginOperation {
                context: context@,
                operation: operation@,
            },
            NextStep::CarryOut { context, plan } => NextView::CarryOut {
                context: context@,
                plan: plan@,
            },
            NextStep::MapError(error) => NextView::MapError(error@),
            NextStep::Respond(response) => NextView::Respond(response@),
        }
    }
}

/// Whether the operation filter, asked about an operation, gave an answer. A filter that is not
/// there lets every operation go on.
pub open spec fn operation_answers<O: OperationFilter>(
    filter: Option<&O>,
    operation: OperationView,
    answer: Option<ErrorView>,
) -> bool {
    match filter {
        None => answer is None,
        Some(f) => exists|context: OperationContext, result: Result<(), S3Error>|
            {
                &&& context.operation@ == operation
                &&& context.action == operation_action(operation)
                &&& #[trigger] call_ensures(O::allow_operation, (f, context), result)
                &&& failure(result) == answer
            },
    }
}

/// What comes after a request was admitted or turned away, and the operation filter gave an
/// answer.
pub open spec fn after_admission(
    refused: Option<ErrorView>,
    detected: Result<DetectedView, ErrorView>,
    filtered: Option<ErrorView>,
) -> NextView {
    match refused {
        Some(error) => NextView::MapError(error),
        None => match implemented_operation(detected) {
            Err(error) => NextView::MapError(error),
            Ok(operation) => match filtered {
                Some(error) => NextView::MapError(error),
                None => NextView::Authenticate(operation),
            },
        },
    }
}

/// Whether a request went on as it must when it was admitted or turned away. The operation filter
/// is asked where the request was admitted and names a supported operation.
pub open spec fn is_admitted<O: OperationFilter>(
    filter: Option<&O>,
    refused: Option<ErrorView>,
    detected: Result<DetectedView, ErrorView>,
    next: NextView,
) -> bool {
    if refused is None && implemented_operation(detected) is Ok {
        exists|filtered: Option<ErrorView>| #[trigger]
            operation_answers(filter, implemented_operation(detected)->Ok_0, filtered) && next
                == after_admission(refused, detected, filtered)
    } else {
        next == after_admission(refused, detected, None)
    }
}

/// Goes on with a request that was admitted or turned away.
pub fn admitted<O: OperationFilter>(
    permit: Result<(), S3Error>,
    detected: Result<DetectedOperation, S3Error>,
    filter: Option<&O>,
) -> (next: NextStep)
    ensures
        is_admitted(filter, failure(permit), result_view(detected), next@),
{
    if let Err(error) = permit {
        return NextStep::MapError(error);
    }
    let ghost asked = implemented_operation(result_view(detected));
    let operation = match select_operation(detected) {
        Err(error) => {
            return NextStep::MapError(error);
        },
        Ok(operation) => operation,
    };
    match filter {
        None => {
            assert(operation_answers(filter, asked->Ok_0, None));
            NextStep::Authenticate(operation)
        },
        Some(f) => {
            let context = OperationContext {
                action: operation.action(),
                operation: operation.clone(),
            };
            let answer = f.allow_operation(context);
            assert(operation_answers(filter, asked->Ok_0, failure(answer)));
            match answer {
                Ok(()) => NextStep::Authenticate(operation),
                Err(error) => NextStep::MapError(error),
            }
        },
    }
}

/// What comes after a request was authenticated or not.
pub open spec fn after_authentication(
    context: Result<AuthContextView, ErrorView>,
    operation: OperationView,
) -> NextView {
    match context {
        Err(error) => NextView::MapError(error),
        Ok(context) => NextView::BeginOperation { context, operation },
    }
}

/// Authenticates a request for an operation.
///
/// `provider` is the answer of the authentication provider, where there is one.
pub fn authenticated(
    auth: &AuthState,
    request: &S3Request,
    provider: Option<Result<AuthenticationResult, S3Error>>,
    now: Instant,
    operation: S3Operation,
) -> (next: NextStep)
    ensures
        next@ == after_authentication(
            request_context(auth@, *request, provider, now@),
            operation@,
        ),
{
    match authenticate_request(auth, request, provider, now) {
        Ok(context) => NextStep::BeginOperation { context, operation },
        Err(error) => NextStep::MapError(error),
    }
}

/// The error for a tenant whose operation may not begin.
pub open spec fn tenant_error(answer: TenantAnswer) -> Option<ErrorView> {
    match answer {
        TenantAnswer::Begun => None,
        TenantAnswer::InvalidPrincipal => Some(access_denied("invalid custom principal id"@)),
        TenantAnswer::Refused(error) => Some(error@),
    }
}

/// Whether an authenticated request for an operation went on as it must: whose operation may not
/// begin gets the error of that, and for everybody else the plan of the operation decides, with the
/// answers that the hooks gave about its access.
pub open spec fn is_dispatched<P: AuthorizationPolicy, F: TargetFilter>(
    filter: Option<&F>,
    policy: Option<&P>,
    tenant: Option<ErrorView>,
    s: Situation,
    operation: OperationView,
    next: NextView,
) -> bool {
    match tenant {
        Some(error) => next == NextView::MapError(error),
        None => match next {
            NextView::CarryOut { context: c, plan } => c == s.context && is_planned(
                filter,
                policy,
                s,
                operation,
                Ok(plan),
            ),
            NextView::MapError(error) => is_planned(filter, policy, s, operation, Err(error)),
            _ => false,
        },
    }
}

/// The situation of a request that was authenticated.
pub open spec fn dispatch_situation(
    auth: AuthStateView,
    request: S3Request,
    base_domain: Option<Seq<char>>,
    context: AuthContextView,
    sessions: Map<Seq<char>, crate::storage::model::SessionView>,
    operation: OperationView,
    request_id: Seq<char>,
) -> Situation {
    situation(
        request@,
        base_domain,
        auth,
        context,
        named_session(sessions, operation),
        request_id,
    )
}

/// Makes the plan for an authenticated request whose tenant gave an answer.
pub fn dispatch<P: AuthorizationPolicy, F: TargetFilter>(
    auth: &AuthState,
    request: &S3Request,
    base_domain: Option<&str>,
    context: AuthContext,
    tenant: TenantAnswer,
    filter: Option<&F>,
    policy: Option<&P>,
    uploads: &FileMultipartStore,
    request_id: &RequestId,
    operation: S3Operation,
) -> (next: NextStep)
    ensures
        is_dispatched(
            filter,
            policy,
            tenant_error(tenant),
            dispatch_situation(
                auth@,
                *request,
                opt_str(base_domain),
                context@,
                uploads@,
                operation@,
                request_id@,
            ),
            operation@,
            next@,
        ),
{
    match tenant {
        TenantAnswer::Begun => {},
        TenantAnswer::InvalidPrincipal => {
            return NextStep::MapError(S3Error::access_denied("invalid custom principal id"));
        },
        TenantAnswer::Refused(error) => {
            return NextStep::MapError(error);
        },
    }
    let planned = {
        let caller = Caller { auth, context: &context, filter, policy };
        dispatch_implemented_operation(
            request,
            base_domain,
            &caller,
            uploads,
            request_id,
            operation,
        )
    };
    match planned {
        Ok(plan) => NextStep::CarryOut { context, plan },
        Err(error) => NextStep::MapError(error),
    }
}

/// How carrying out a plan ended.
#[derive(Debug)]
pub enum OperationEnd {
    /// It came to an outcome.
    Finished(Result<S3Response, S3Error>),
    /// It took longer than the tenant is given, and was given up.
    TimedOut,
}

/// The outcome of a plan whose carrying out ended: one that was given up is answered with
/// `SlowDown`.
pub open spec fn end_outcome(end: OperationEnd) -> Result<S3ResponseView, ErrorView> {
    match end {
        OperationEnd::Finished(outcome) => result_view(outcome),
        OperationEnd::TimedOut => Err(slow_down("operation timed out"@)),
    }
}

/// Whether an application is told, of the operation of a tenant, how it ended.
pub open spec fn is_told(end: OperationEnd, told: TenantOperationOutcome) -> bool {
    match (end, told) {
        (
            OperationEnd::Finished(Ok(response)),
            TenantOperationOutcome::Success { status, decoded_bytes },
        ) => status == response@.status && decoded_bytes == response@.decoded_bytes,
        (
            OperationEnd::Finished(Err(error)),
            TenantOperationOutcome::Error { status, code },
        ) => status == error@.status && code@ == error@.code,
        (
            OperationEnd::TimedOut,
            TenantOperationOutcome::TimedOut { status, code },
        ) => status == 503 && code@ == "SlowDown"@,
        _ => false,
    }
}

/// What an application is told of how the operation of a tenant ended.
pub fn tenant_outcome(end: &OperationEnd) -> (told: TenantOperationOutcome)
    ensures
        is_told(*end, told),
{
    match end {
        OperationEnd::Finished(Ok(response)) => TenantOperationOutcome::Success {
            status: response.status,
            decoded_bytes: response.decoded_bytes,
        },
        OperationEnd::Finished(Err(error)) => TenantOperationOutcome::Error {
            status: error.status(),
            code: error.code().to_owned(),
        },
        OperationEnd::TimedOut => TenantOperationOutcome::TimedOut {
            status: 503,
            code: "SlowDown".to_owned(),
        },
    }
}

/// What comes after a plan was carried out.
pub open spec fn after_carrying_out(
    head: bool,
    outcome: Result<S3ResponseView, ErrorView>,
    request_id: Seq<char>,
) -> NextView {
    match outcome {
        Ok(_) => NextView::Respond(final_response(head, outcome, request_id)),
        Err(error) => NextView::MapError(error),
    }
}

/// Goes on with how carrying out what was planned ended.
pub fn carried_out(
    method: &Method,
    end: OperationEnd,
    request_id: &RequestId,
) -> (next: NextStep)
    ensures
        next@ == after_carrying_out(*method is Head, end_outcome(end), request_id@),
{
    match end {
        OperationEnd::Finished(Ok(response)) => NextStep::Respond(
            finish_response(method, Ok(response), request_id),
        ),
        OperationEnd::Finished(Err(error)) => NextStep::MapError(error),
        OperationEnd::TimedOut => NextStep::MapError(S3Error::slow_down("operation timed out")),
    }
}

/// Goes on with an error as the error mapper left it: it is sent.
pub fn mapped(method: &Method, error: S3Error, request_id: &RequestId) -> (next: NextStep)
    ensures
        next@ == NextView::Respond(final_response(*method is Head, Err(error@), request_id@)),
{
    NextStep::Respond(finish_response(method, Err(error), request_id))
}

/// Nothing is done for a request that is not authenticated, whose tenant's operation may not begin,
/// or that the filter, the allow-lists or the policy turn away: where something is done, the request
/// was authenticated as whoever it is done for, the tenant's operation began, and none of the
/// others, asked about the operation's access, denies it.
pub proof fn law_only_authorized_requests_are_carried_out<
    P: AuthorizationPolicy,
    F: TargetFilter,
>(
    filter: Option<&F>,
    policy: Option<&P>,
    context: Result<AuthContextView, ErrorView>,
    tenant: Option<ErrorView>,
    s: Situation,
    operation: OperationView,
    done_for: AuthContextView,
    plan: PlanView,
)
    requires
        after_authentication(context, operation) == (NextView::BeginOperation {
            context: s.context,
            operation,
        }),
        is_dispatched(
            filter,
            policy,
            tenant,
            s,
            operation,
            NextView::CarryOut { context: done_for, plan },
        ),
    ensures
        context == Ok::<AuthContextView, ErrorView>(done_for),
        tenant is None,
        exists|filtered: Option<ErrorView>, decided: Option<ErrorView>| #[trigger]
            hooks_answer(
                filter,
                policy,
                s.auth,
                s.context,
                operation_access(s, operation),
                filtered,
                decided,
            ) && denied(
                with_answers(s, filtered, decided),
                accessed_bucket(s, operation),
                operation_action(operation),
            ) is None && operation_plan(with_answers(s, filtered, decided), operation) == Ok::<
                PlanView,
                ErrorView,
            >(plan),
{
    reveal(is_planned);
    let (filtered, decided) = choose|filtered: Option<ErrorView>, decided: Option<ErrorView>|
        #[trigger] hooks_answer(
            filter,
            policy,
            s.auth,
            s.context,
            operation_access(s, operation),
            filtered,
            decided,
        ) && operation_plan(with_answers(s, filtered, decided), operation) == Ok::<
            PlanView,
            ErrorView,
        >(plan);
    law_plans_are_authorized(with_answers(s, filtered, decided), operation);
}

/// No error is lost: whether a request is turned away at admission, is no supported operation, is
/// refused by the operation filter, is not authenticated, may not begin, fails while it is carried
/// out or takes too long, the error goes to the error mapper.
pub proof fn law_errors_reach_the_error_mapper(
    refused: Option<ErrorView>,
    detected: Result<DetectedView, ErrorView>,
    filtered: Option<ErrorView>,
    context: Result<AuthContextView, ErrorView>,
    operation: OperationView,
    head: bool,
    end: OperationEnd,
    request_id: Seq<char>,
)
    ensures
        refused is Some ==> after_admission(refused, detected, filtered) == NextView::MapError(
            refused->0,
        ),
        refused is None && implemented_operation(detected) is Err ==> after_admission(
            refused,
            detected,
            filtered,
        ) == NextView::MapError(implemented_operation(detected)->Err_0),
        refused is None && implemented_operation(detected) is Ok && filtered is Some
            ==> after_admission(refused, detected, filtered) == NextView::MapError(filtered->0),
        context is Err ==> after_authentication(context, operation) == NextView::MapError(
            context->Err_0,
        ),
        end_outcome(end) is Err ==> after_carrying_out(head, end_outcome(end), request_id)
            == NextView::MapError(end_outcome(end)->Err_0),
        end is TimedOut ==> after_carrying_out(head, end_outcome(end), request_id)
            == NextView::MapError(slow_down("operation timed out"@)),
{
}

/// A tenant whose operation may not begin gets the error of that, whoever is authenticated and
/// whatever the other hooks would say.
pub proof fn law_operations_that_may_not_begin_are_refused<
    P: AuthorizationPolicy,
    F: TargetFilter,
>(
    filter: Option<&F>,
    policy: Option<&P>,
    answer: TenantAnswer,
    s: Situation,
    operation: OperationView,
    next: NextView,
)
    requires
        answer !is Begun,
        is_dispatched(filter, policy, tenant_error(answer), s, operation, next),
    ensures
        next == NextView::MapError(
            if answer is InvalidPrincipal {
                access_denied("invalid custom principal id"@)
            } else {
                (answer->Refused_0)@
            },
        ),
{
}

/// A refused request is answered with its error: the response has the status of the error and names
/// the request, and its body is the error as XML, unless the request was a HEAD request.
pub proof fn law_refused_requests_are_answered_with_their_error(
    head: bool,
    error: ErrorView,
    request_id: Seq<char>,
)
    ensures
        ({
            let response = final_response(head, Err(error), request_id);
            &&& response.status == error.status
            &&& response.headers.contains(("x-amz-request-id"@, request_id))
            &&& response.body == if head {
                BodyView::Empty
            } else {
                BodyView::Text(error_xml(error, request_id))
            }
        }),
{
    let sent = text_response(error_response(error, request_id));
    let field = ("x-amz-request-id"@, request_id);
    assert(sent.headers.last() == field);
    assert(sent.headers.contains(field));
    reveal_strlit("x-amz-request-id");
    reveal_strlit("content-length");
    assert("x-amz-request-id"@.len() != "content-length"@.len());
    let differs = |h: (Seq<char>, Seq<char>)| h.0 != "content-length"@;
    assert(sent.headers.filter(differs).contains(field)) by {
        sent.headers.lemma_filter_contains(differs, sent.headers.len() - 1);
    }
    let kept = sent.headers.filter(differs);
    let i = choose|i: int| 0 <= i < kept.len() && kept[i] == field;
    assert(set_header(sent.headers, "content-length"@, "0"@)[i] == field);
}

} // verus!
