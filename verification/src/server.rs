//! The request router: which operation a request asks for, and what the
//! server answers once the operation is done.
//!
//! Listening, reading and writing are left to the program. So is the bulk
//! load, which the router only recognises and hands back to its caller.

use crate::model::person::{Person, PersonView};
use crate::request::{
    parse_pairs_of, parse_pairs_spec, parse_spec, to_map, Params, Request, RequestView,
};
use crate::server_state::{ServerState, StateView};
use crate::text::{
    chars_of, decimal, has_prefix, parse_u32_in, parse_u32_spec, push_decimal,
    same_text, split, split_on, starts_with, texts,
};
use vstd::prelude::*;

verus! {

/// The status of a response.
#[derive(Clone, Copy, Debug, PartialEq, Eq, Structural)]
pub enum Status {
    Success,
    Created,
    BadRequest,
    NotFound,
    ServerError,
}

impl Status {
    /// The head of a response with this status: the status line, the
    /// header that goes with it, and the empty line.
    pub open spec fn head(self) -> Seq<char> {
        match self {
            Status::Success => "HTTP/1.1 200 OK\r\nContent-Type: text/plain\r\n\r\n"@,
            Status::Created => "HTTP/1.1 201 CREATED\r\nContent-Type: text/plain\r\n\r\n"@,
            Status::BadRequest => "HTTP/1.1 400 BAD REQUEST\r\n\r\n"@,
            Status::NotFound => "HTTP/1.1 404 NOT FOUND\r\n\r\n"@,
            Status::ServerError => "HTTP/1.1 500 INTERNAL SERVER ERROR\r\n\r\n"@,
        }
    }

    /// The head of a response with this status.
    pub fn line(self) -> (line: &'static str)
        ensures
            line@ == self.head(),
    {
        match self {
            Status::Success => "HTTP/1.1 200 OK\r\nContent-Type: text/plain\r\n\r\n",
            Status::Created => "HTTP/1.1 201 CREATED\r\nContent-Type: text/plain\r\n\r\n",
            Status::BadRequest => "HTTP/1.1 400 BAD REQUEST\r\n\r\n",
            Status::NotFound => "HTTP/1.1 404 NOT FOUND\r\n\r\n",
            Status::ServerError => "HTTP/1.1 500 INTERNAL SERVER ERROR\r\n\r\n",
        }
    }
}

/// What the server answers.
pub struct Response {
    pub status: Status,
    pub body: String,
}

/// The mathematical value of a response.
pub struct ResponseView {
    pub status: Status,
    pub body: Seq<char>,
}

impl View for Response {
    type V = ResponseView;

    open spec fn view(&self) -> ResponseView {
        ResponseView { status: self.status, body: self.body@ }
    }
}

impl Response {
    /// The text that is sent: the head, then the body.
    pub fn render(&self) -> (text: String)
        ensures
            text@ == self.status.head() + self.body@,
    {
        let mut text = self.status.line().to_owned();
        text.append(self.body.as_str());
        text
    }
}

/// Why a request is refused as malformed.
#[derive(Clone, Copy, Debug, PartialEq, Eq, Structural)]
pub enum Refusal {
    /// The id in the path is not a number.
    InvalidId,
    /// The body has no name.
    MissingName,
    /// The body has no age, or one that is not a number.
    InvalidAge,
    /// The query has no count, or one that is not a number.
    InvalidCount,
}

/// What a request asks for.
pub enum Route {
    /// Look up the person with this id.
    GetPerson(u32),
    /// Store a new person with this name and age.
    AddPerson(String, u32),
    /// Replace the name and the age of the person with this id.
    UpdatePerson(u32, String, u32),
    /// Load this many synthetic records.
    Populate(u32),
    /// The request names an operation, but is malformed.
    Refuse(Refusal),
    /// The request names no operation of the server.
    Unknown,
}

/// What a request asks for, as a mathematical value.
pub enum RouteView {
    GetPerson(u32),
    AddPerson(Seq<char>, u32),
    UpdatePerson(u32, Seq<char>, u32),
    Populate(u32),
    Refuse(Refusal),
    Unknown,
}

impl View for Route {
    type V = RouteView;

    open spec fn view(&self) -> RouteView {
        match self {
            Route::GetPerson(id) => RouteView::GetPerson(*id),
            Route::AddPerson(name, age) => RouteView::AddPerson(name@, *age),
            Route::UpdatePerson(id, name, age) => RouteView::UpdatePerson(*id, name@, *age),
            Route::Populate(count) => RouteView::Populate(*count),
            Route::Refuse(refusal) => RouteView::Refuse(*refusal),
            Route::Unknown => RouteView::Unknown,
        }
    }
}

/// The id that a path names: what follows `/person/`, read as a number.
pub open spec fn path_id(path: Seq<char>) -> Option<u32> {
    parse_u32_spec(path.skip("/person/"@.len() as int))
}

/// The query of a path: what stands between its first `'?'` and its
/// second, or the end. Empty where the path has no `'?'`.
pub open spec fn query_of(path: Seq<char>) -> Seq<char> {
    let pieces = split_on(path, '?');
    if pieces.len() > 1 {
        pieces[1]
    } else {
        Seq::empty()
    }
}

/// The number that the parameters hold under `key`, if they hold one.
pub open spec fn number_of(params: Map<Seq<char>, Seq<char>>, key: Seq<char>) -> Option<u32> {
    if params.contains_key(key) {
        parse_u32_spec(params[key])
    } else {
        None
    }
}

/// What a body asks to enter: a name and an age, or the reason why it
/// cannot be read. A missing name is reported before a bad age.
pub open spec fn entry_of(body: Seq<char>) -> Result<(Seq<char>, u32), Refusal> {
    let params = to_map(parse_pairs_spec(body));
    if !params.contains_key("name"@) {
        Err(Refusal::MissingName)
    } else {
        match number_of(params, "age"@) {
            Some(age) => Ok((params["name"@], age)),
            None => Err(Refusal::InvalidAge),
        }
    }
}

/// What a request asks for. The cases are tried in this order: a `GET` of
/// a person, a `POST` of a person, a `PUT` of a person, a `POST` of a
/// bulk load.
pub open spec fn route_spec(request: RequestView) -> RouteView {
    if request.method == "GET"@ && has_prefix(request.path, "/person/"@) {
        match path_id(request.path) {
            Some(id) => RouteView::GetPerson(id),
            None => RouteView::Refuse(Refusal::InvalidId),
        }
    } else if request.method == "POST"@ && request.path == "/person"@ {
        match entry_of(request.body) {
            Ok((name, age)) => RouteView::AddPerson(name, age),
            Err(refusal) => RouteView::Refuse(refusal),
        }
    } else if request.method == "PUT"@ && has_prefix(request.path, "/person/"@) {
        match path_id(request.path) {
            Some(id) => match entry_of(request.body) {
                Ok((name, age)) => RouteView::UpdatePerson(id, name, age),
                Err(refusal) => RouteView::Refuse(refusal),
            },
            None => RouteView::Refuse(Refusal::InvalidId),
        }
    } else if request.method == "POST"@ && has_prefix(request.path, "/populate"@) {
        match number_of(to_map(parse_pairs_spec(query_of(request.path))), "count"@) {
            Some(count) => RouteView::Populate(count),
            None => RouteView::Refuse(Refusal::InvalidCount),
        }
    } else {
        RouteView::Unknown
    }
}

fn read_path_id(path: &Vec<char>, prefix: &Vec<char>) -> (id: Option<u32>)
    requires
        has_prefix(path@, prefix@),
        prefix@ == "/person/"@,
    ensures
        id == path_id(path@),
{
    assert(path@.subrange(prefix@.len() as int, path@.len() as int) == path@.skip(
        prefix@.len() as int,
    ));
    parse_u32_in(path, prefix.len(), path.len())
}

fn read_entry(body: &str) -> (entry: Result<(String, u32), Refusal>)
    ensures
        match entry {
            Ok((name, age)) => entry_of(body@) == Ok::<(Seq<char>, u32), Refusal>((name@, age)),
            Err(refusal) => entry_of(body@) == Err::<(Seq<char>, u32), Refusal>(refusal),
        },
{
    let chars = chars_of(body);
    let params = parse_pairs_of(&chars);
    match params.get("name") {
        None => Err(Refusal::MissingName),
        Some(name) => match params.get_u32("age") {
            Some(age) => Ok((name, age)),
            None => Err(Refusal::InvalidAge),
        },
    }
}

fn read_query(path: &Vec<char>) -> (params: Params)
    ensures
        params.pairs() == parse_pairs_spec(query_of(path@)),
{
    let pieces = split(path, '?');
    if pieces.len() > 1 {
        assert(texts(pieces@)[1] == pieces@[1]@);
        parse_pairs_of(&pieces[1])
    } else {
        let empty: Vec<char> = Vec::new();
        parse_pairs_of(&empty)
    }
}

/// Tells what `request` asks for.
pub fn route(request: &Request) -> (route: Route)
    ensures
        route@ == route_spec(request@),
{
    let method = chars_of(request.method.as_str());
    let path = chars_of(request.path.as_str());
    let person_prefix = chars_of("/person/");
    let is_get = same_text(&method, &chars_of("GET"));
    let is_post = same_text(&method, &chars_of("POST"));
    let is_put = same_text(&method, &chars_of("PUT"));
    let of_person = starts_with(&path, &person_prefix);
    if is_get && of_person {
        match read_path_id(&path, &person_prefix) {
            Some(id) => Route::GetPerson(id),
            None => Route::Refuse(Refusal::InvalidId),
        }
    } else if is_post && same_text(&path, &chars_of("/person")) {
        match read_entry(request.body.as_str()) {
            Ok((name, age)) => Route::AddPerson(name, age),
            Err(refusal) => Route::Refuse(refusal),
        }
    } else if is_put && of_person {
        match read_path_id(&path, &person_prefix) {
            Some(id) => match read_entry(request.body.as_str()) {
                Ok((name, age)) => Route::UpdatePerson(id, name, age),
                Err(refusal) => Route::Refuse(refusal),
            },
            None => Route::Refuse(Refusal::InvalidId),
        }
    } else if is_post && starts_with(&path, &chars_of("/populate")) {
        match read_query(&path).get_u32("count") {
            Some(count) => Route::Populate(count),
            None => Route::Refuse(Refusal::InvalidCount),
        }
    } else {
        Route::Unknown
    }
}

/// How an operation ended.
pub enum Outcome {
    /// The person that was asked for.
    Found(Person),
    /// No person has the id that was asked for.
    Missing,
    /// A person was stored under this id.
    Created(u32),
    /// A person was updated.
    Updated,
    /// This many records were loaded, in a time that is given as text.
    Populated(u32, String),
    /// The bulk load failed, for a reason that is given as text.
    PopulateFailed(String),
    /// The request was malformed.
    Refused(Refusal),
    /// The request named no operation of the server.
    Unknown,
    /// The text that was received holds no request.
    Unparsed,
    /// The server's state could not be used.
    Failed,
}

/// How an operation ended, as a mathematical value.
pub enum OutcomeView {
    Found(PersonView),
    Missing,
    Created(u32),
    Updated,
    Populated(u32, Seq<char>),
    PopulateFailed(Seq<char>),
    Refused(Refusal),
    Unknown,
    Unparsed,
    Failed,
}

impl View for Outcome {
    type V = OutcomeView;

    open spec fn view(&self) -> OutcomeView {
        match self {
            Outcome::Found(p) => OutcomeView::Found(p@),
            Outcome::Missing => OutcomeView::Missing,
            Outcome::Created(id) => OutcomeView::Created(*id),
            Outcome::Updated => OutcomeView::Updated,
            Outcome::Populated(count, elapsed) => OutcomeView::Populated(*count, elapsed@),
            Outcome::PopulateFailed(error) => OutcomeView::PopulateFailed(error@),
            Outcome::Refused(refusal) => OutcomeView::Refused(*refusal),
            Outcome::Unknown => OutcomeView::Unknown,
            Outcome::Unparsed => OutcomeView::Unparsed,
            Outcome::Failed => OutcomeView::Failed,
        }
    }
}

/// The response to an operation that ended in `outcome`.
pub open spec fn reply_spec(outcome: OutcomeView) -> ResponseView {
    match outcome {
        OutcomeView::Found(p) => ResponseView {
            status: Status::Success,
            body: "ID: "@ + decimal(p.id as nat) + ", Name: "@ + p.name + ", Age: "@ + p.email,
        },
        OutcomeView::Missing => ResponseView {
            status: Status::NotFound,
            body: "Person not found"@,
        },
        OutcomeView::Created(id) => ResponseView {
            status: Status::Created,
            body: "Person created with ID: "@ + decimal(id as nat),
        },
        OutcomeView::Updated => ResponseView { status: Status::Success, body: "Person updated"@ },
        OutcomeView::Populated(count, elapsed) => ResponseView {
            status: Status::Success,
            body: "Successfully populated "@ + decimal(count as nat) + " records in "@ + elapsed,
        },
        OutcomeView::PopulateFailed(error) => ResponseView {
            status: Status::ServerError,
            body: "Failed to populate records: "@ + error,
        },
        OutcomeView::Refused(Refusal::InvalidId) => ResponseView {
            status: Status::BadRequest,
            body: "Invalid ID"@,
        },
        OutcomeView::Refused(Refusal::MissingName) => ResponseView {
            status: Status::BadRequest,
            body: "Missing name"@,
        },
        OutcomeView::Refused(Refusal::InvalidAge) => ResponseView {
            status: Status::BadRequest,
            body: "Invalid or missing age"@,
        },
        OutcomeView::Refused(Refusal::InvalidCount) => ResponseView {
            status: Status::BadRequest,
            body: "Missing or invalid count parameter"@,
        },
        OutcomeView::Unknown => ResponseView {
            status: Status::NotFound,
            body: "404 - Endpoint not found"@,
        },
        OutcomeView::Unparsed => ResponseView { status: Status::BadRequest, body: "Bad Request"@ },
        OutcomeView::Failed => ResponseView { status: Status::ServerError, body: "Server error"@ },
    }
}

/// Makes the response to an operation that ended in `outcome`.
pub fn reply(outcome: &Outcome) -> (response: Response)
    ensures
        response@ == reply_spec(outcome@),
{
    match outcome {
        Outcome::Found(p) => {
            let mut body = "ID: ".to_owned();
            push_decimal(&mut body, p.id as u64);
            body.append(", Name: ");
            body.append(p.name.as_str());
            body.append(", Age: ");
            body.append(p.email.as_str());
            Response { status: Status::Success, body }
        },
        Outcome::Missing => Response {
            status: Status::NotFound,
            body: "Person not found".to_owned(),
        },
        Outcome::Created(id) => {
            let mut body = "Person created with ID: ".to_owned();
            push_decimal(&mut body, *id as u64);
            Response { status: Status::Created, body }
        },
        Outcome::Updated => Response { status: Status::Success, body: "Person updated".to_owned() },
        Outcome::Populated(count, elapsed) => {
            let mut body = "Successfully populated ".to_owned();
            push_decimal(&mut body, *count as u64);
            body.append(" records in ");
            body.append(elapsed.as_str());
            Response { status: Status::Success, body }
        },
        Outcome::PopulateFailed(error) => {
            let mut body = "Failed to populate records: ".to_owned();
            body.append(error.as_str());
            Response { status: Status::ServerError, body }
        },
        Outcome::Refused(Refusal::InvalidId) => Response {
            status: Status::BadRequest,
            body: "Invalid ID".to_owned(),
        },
        Outcome::Refused(Refusal::MissingName) => Response {
            status: Status::BadRequest,
            body: "Missing name".to_owned(),
        },
        Outcome::Refused(Refusal::InvalidAge) => Response {
            status: Status::BadRequest,
            body: "Invalid or missing age".to_owned(),
        },
        Outcome::Refused(Refusal::InvalidCount) => Response {
            status: Status::BadRequest,
            body: "Missing or invalid count parameter".to_owned(),
        },
        Outcome::Unknown => Response {
            status: Status::NotFound,
            body: "404 - Endpoint not found".to_owned(),
        },
        Outcome::Unparsed => Response {
            status: Status::BadRequest,
            body: "Bad Request".to_owned(),
        },
        Outcome::Failed => Response {
            status: Status::ServerError,
            body: "Server error".to_owned(),
        },
    }
}

/// What became of a request: it was answered, or it asks for a bulk load
/// of this many records, which is for the caller to run.
pub enum Handled {
    Reply(Response),
    Populate(u32),
}

/// What became of a request, as a mathematical value.
pub enum HandledView {
    Reply(ResponseView),
    Populate(u32),
}

impl View for Handled {
    type V = HandledView;

    open spec fn view(&self) -> HandledView {
        match self {
            Handled::Reply(response) => HandledView::Reply(response@),
            Handled::Populate(count) => HandledView::Populate(*count),
        }
    }
}

/// The state after the operation that `route` names.
pub open spec fn state_after(state: StateView, route: RouteView) -> StateView {
    match route {
        RouteView::AddPerson(name, age) => if state.has_room() {
            state.add(name, age)
        } else {
            state
        },
        RouteView::UpdatePerson(id, name, age) => state.update(id, name, age),
        _ => state,
    }
}

/// What becomes of a request for `route` in `state`. A person that cannot
/// be added because no id is left is answered as a failure of the server.
pub open spec fn handled_spec(state: StateView, route: RouteView) -> HandledView {
    match route {
        RouteView::GetPerson(id) => HandledView::Reply(
            reply_spec(
                match state.get(id) {
                    Some(p) => OutcomeView::Found(p),
                    None => OutcomeView::Missing,
                },
            ),
        ),
        RouteView::AddPerson(name, age) => HandledView::Reply(
            reply_spec(
                if state.has_room() {
                    OutcomeView::Created(state.next_id as u32)
                } else {
                    OutcomeView::Failed
                },
            ),
        ),
        RouteView::UpdatePerson(id, name, age) => HandledView::Reply(
            reply_spec(
                if state.get(id) is Some {
                    OutcomeView::Updated
                } else {
                    OutcomeView::Missing
                },
            ),
        ),
        RouteView::Populate(count) => HandledView::Populate(count),
        RouteView::Refuse(refusal) => HandledView::Reply(reply_spec(OutcomeView::Refused(refusal))),
        RouteView::Unknown => HandledView::Reply(reply_spec(OutcomeView::Unknown)),
    }
}

/// Handles one request against the server's state: does what the request
/// asks for and makes the response, or hands a bulk load back to the
/// caller.
pub fn handle_request(state: &mut ServerState, request: &Request) -> (handled: Handled)
    requires
        old(state).wf(),
    ensures
        final(state).wf(),
        final(state)@ == state_after(old(state)@, route_spec(request@)),
        handled@ == handled_spec(old(state)@, route_spec(request@)),
{
    let outcome = match route(request) {
        Route::GetPerson(id) => match state.get_person(id) {
            Some(person) => Outcome::Found(person),
            None => Outcome::Missing,
        },
        Route::AddPerson(name, age) => {
            if state.has_room() {
                Outcome::Created(state.add_person(name, age))
            } else {
                Outcome::Failed
            }
        },
        Route::UpdatePerson(id, name, age) => {
            if state.update_person(id, name, age) {
                Outcome::Updated
            } else {
                Outcome::Missing
            }
        },
        Route::Populate(count) => {
            return Handled::Populate(count);
        },
        Route::Refuse(refusal) => Outcome::Refused(refusal),
        Route::Unknown => Outcome::Unknown,
    };
    Handled::Reply(reply(&outcome))
}

/// What becomes of the text that a client sent, in `state`.
pub open spec fn client_spec(state: StateView, raw: Seq<char>) -> (StateView, HandledView) {
    match parse_spec(raw) {
        Some(request) => (
            state_after(state, route_spec(request)),
            handled_spec(state, route_spec(request)),
        ),
        None => (state, HandledView::Reply(reply_spec(OutcomeView::Unparsed))),
    }
}

/// Handles the text that a client sent: reads the request in it and
/// handles that, or answers that the text holds none.
pub fn handle_client(state: &mut ServerState, raw: &str) -> (handled: Handled)
    requires
        old(state).wf(),
    ensures
        final(state).wf(),
        (final(state)@, handled@) == client_spec(old(state)@, raw@),
{
    match Request::parse(raw) {
        Some(request) => handle_request(state, &request),
        None => Handled::Reply(reply(&Outcome::Unparsed)),
    }
}

} // verus!
