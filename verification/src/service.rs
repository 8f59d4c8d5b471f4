//! The four requests that the directory answers, as functions from the store
//! and the request to the response. Transport is the caller's business: it
//! hands over plain values and sends what comes back.

use crate::date::date_text;
use crate::date::lemma_parse_then_text;
use crate::date::parsed_date;
use crate::store::is_listing;
use crate::store::record_views;
use crate::store::UserStore;
use crate::user::all_tags_fit;
use crate::user::record_of;
use crate::user::valid_record;
use crate::user::validated;
use crate::user::NewUser;
use crate::user::NewUserRequest;
use crate::user::RequestView;
use crate::user::User;
use crate::user::UserId;
use crate::user::UserView;
use crate::validation::fits;
use crate::validation::Field;
use crate::validation::ValidationError;
use vstd::prelude::*;

verus! {

/// What a request is answered with.
#[derive(Debug)]
pub enum Response {
    /// Every record of the directory.
    Users(Vec<User>),
    /// The record that was asked for.
    Found(User),
    /// The record that was made.
    Created(User),
    /// The number of records.
    Count(usize),
    /// No record has the identifier that was asked for.
    NotFound,
    /// The create request did not pass the checks.
    Rejected(ValidationError),
    /// The body of the request could not be read as a create request.
    Unreadable,
}

/// View of a `Response`.
pub enum ResponseView {
    Users(Seq<UserView>),
    Found(UserView),
    Created(UserView),
    Count(nat),
    NotFound,
    Rejected(ValidationError),
    Unreadable,
}

impl View for Response {
    type V = ResponseView;

    open spec fn view(&self) -> ResponseView {
        match *self {
            Response::Users(all) => ResponseView::Users(record_views(all@)),
            Response::Found(user) => ResponseView::Found(user@),
            Response::Created(user) => ResponseView::Created(user@),
            Response::Count(count) => ResponseView::Count(count as nat),
            Response::NotFound => ResponseView::NotFound,
            Response::Rejected(error) => ResponseView::Rejected(error),
            Response::Unreadable => ResponseView::Unreadable,
        }
    }
}

impl ResponseView {
    /// The HTTP status of each response.
    pub open spec fn status_code(self) -> int {
        match self {
            ResponseView::Users(_) => 200,
            ResponseView::Found(_) => 200,
            ResponseView::Created(_) => 201,
            ResponseView::Count(_) => 200,
            ResponseView::NotFound => 404,
            ResponseView::Rejected(_) => 400,
            ResponseView::Unreadable => 400,
        }
    }
}

impl Response {
    /// The HTTP status to send with this response.
    pub fn status(&self) -> (code: u16)
        ensures
            code == self@.status_code(),
    {
        match self {
            Response::Users(_) => 200,
            Response::Found(_) => 200,
            Response::Created(_) => 201,
            Response::Count(_) => 200,
            Response::NotFound => 404,
            Response::Rejected(_) => 400,
            Response::Unreadable => 400,
        }
    }
}

/// The answer to a lookup of `id`.
pub open spec fn lookup_response(records: Map<u128, UserView>, id: u128) -> ResponseView {
    if records.contains_key(id) {
        ResponseView::Found(records[id])
    } else {
        ResponseView::NotFound
    }
}

/// The answer to a create request that is given `id`.
pub open spec fn create_response(id: u128, request: RequestView) -> ResponseView {
    match validated(request) {
        Ok(new_user) => ResponseView::Created(record_of(id, new_user)),
        Err(error) => ResponseView::Rejected(error),
    }
}

/// What a create request that is given `id` does to the records: nothing if
/// it fails a check, else one more record.
pub open spec fn records_after_create(
    records: Map<u128, UserView>,
    id: u128,
    request: RequestView,
) -> Map<u128, UserView> {
    match validated(request) {
        Ok(new_user) => records.insert(id, record_of(id, new_user)),
        Err(_) => records,
    }
}

/// Lists every user.
pub fn search_user(store: &UserStore) -> (response: Response)
    ensures
        response@ matches ResponseView::Users(list) && is_listing(list, store@),
{
    Response::Users(store.list_all())
}

/// Looks one user up.
pub fn find_user(store: &UserStore, id: UserId) -> (response: Response)
    ensures
        response@ == lookup_response(store@, id.0),
{
    match store.get(id) {
        Some(user) => Response::Found(user),
        None => Response::NotFound,
    }
}

/// Answers a create request for which the identifier is already chosen. The
/// identifier is used only if the request passes the checks.
pub fn create_user_with_id(store: &mut UserStore, id: UserId, request: NewUserRequest) -> (response:
    Response)
    ensures
        response@ == create_response(id.0, request@),
        final(store)@ == records_after_create(old(store)@, id.0, request@),
{
    match NewUser::validate(request) {
        Ok(new_user) => Response::Created(store.create_with_id(id, new_user)),
        Err(error) => Response::Rejected(error),
    }
}

/// The identifier that a create request was answered with, or any number if
/// it was rejected.
pub open spec fn created_id(response: ResponseView) -> u128 {
    match response {
        ResponseView::Created(user) => user.id,
        _ => 0,
    }
}

/// Answers a create request: checks it, and files the new record under a
/// fresh identifier. A request that fails a check leaves the store as it was.
pub fn create_user(store: &mut UserStore, request: NewUserRequest) -> (response: Response)
    ensures
        response@ == create_response(created_id(response@), request@),
        final(store)@ == records_after_create(old(store)@, created_id(response@), request@),
{
    match NewUser::validate(request) {
        Ok(new_user) => Response::Created(store.create(new_user)),
        Err(error) => Response::Rejected(error),
    }
}

/// Counts the users.
pub fn count_user(store: &UserStore) -> (response: Response)
    ensures
        response@ == ResponseView::Count(store@.len()),
{
    Response::Count(store.count())
}

/// A record as a create request would have to spell it.
pub open spec fn as_request(user: UserView) -> RequestView {
    RequestView {
        name: user.name,
        nick: user.nick,
        birth_date: date_text(user.birth_date),
        stack: user.stack,
    }
}

/// A request that passes the checks makes a record that is then found under
/// its identifier, and that spells out the request again: the same name, nick
/// and stack, and the birth date in the same ten characters.
pub proof fn lemma_create_then_find(records: Map<u128, UserView>, id: u128, request: RequestView)
    requires
        validated(request) is Ok,
    ensures
        create_response(id, request) is Created,
        create_response(id, request)->Created_0.id == id,
        as_request(create_response(id, request)->Created_0) == request,
        valid_record(create_response(id, request)->Created_0),
        lookup_response(records_after_create(records, id, request), id) == ResponseView::Found(
            create_response(id, request)->Created_0,
        ),
{
    lemma_parse_then_text(request.birth_date);
}

/// A request in which the name, the nick or a tag is over its limit is
/// rejected, and the records stay as they were. When it is the name, the error
/// is `TooLong(Name)`; when the name fits and it is the nick, `TooLong(Nick)`.
pub proof fn lemma_over_limit_is_rejected(
    records: Map<u128, UserView>,
    id: u128,
    request: RequestView,
)
    requires
        !fits(Field::Name, request.name) || !fits(Field::Nick, request.nick) || (request.stack is Some
            && !all_tags_fit(request.stack->Some_0)),
    ensures
        create_response(id, request) is Rejected,
        records_after_create(records, id, request) == records,
        !fits(Field::Name, request.name) ==> create_response(id, request) == ResponseView::Rejected(
            ValidationError::TooLong(Field::Name),
        ),
        fits(Field::Name, request.name) && !fits(Field::Nick, request.nick) ==> create_response(
            id,
            request,
        ) == ResponseView::Rejected(ValidationError::TooLong(Field::Nick)),
{
}

/// A request whose name and nick fit and whose birth date is not a date
/// written as `YYYY-MM-DD` is rejected with `InvalidDate`, and the records
/// stay as they were.
pub proof fn lemma_malformed_date_is_rejected(
    records: Map<u128, UserView>,
    id: u128,
    request: RequestView,
)
    requires
        fits(Field::Name, request.name),
        fits(Field::Nick, request.nick),
        parsed_date(request.birth_date) is None,
    ensures
        create_response(id, request) == ResponseView::Rejected(ValidationError::InvalidDate),
        records_after_create(records, id, request) == records,
{
}

/// No request changes a record that is already there under another
/// identifier, and none removes one.
pub proof fn lemma_create_keeps_others(
    records: Map<u128, UserView>,
    id: u128,
    request: RequestView,
    other: u128,
)
    requires
        other != id,
    ensures
        lookup_response(records_after_create(records, id, request), other) == lookup_response(
            records,
            other,
        ),
{
}

/// A create request adds one to the count when it passes the checks and its
/// identifier is new, and leaves the count as it was otherwise.
pub proof fn lemma_count_after_create(records: Map<u128, UserView>, id: u128, request: RequestView)
    requires
        records.dom().finite(),
    ensures
        records_after_create(records, id, request).len() == if validated(request) is Ok
            && !records.contains_key(id) {
            records.len() + 1
        } else {
            records.len()
        },
{
    if validated(request) is Ok && records.contains_key(id) {
        assert(records_after_create(records, id, request).dom() =~= records.dom());
    }
}

} // verus!
