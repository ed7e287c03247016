use vstd::prelude::*;
use crate::numfmt::{spec_dec, u64_to_string};
use crate::render::{spec_json_string, append_json_string};
use crate::json::{
    JsonValue, JsonView, DecodeError, parse_json, spec_parse_json, spec_lookup, spec_field_u64,
    spec_field_bool, spec_field_string,
};
use crate::ap::{AP, ApView, spec_decode_ap};
use crate::client::{Client, ClientView, spec_decode_client};

verus! {

/// A single equality predicate sent to the controller's query endpoint:
/// `{type, value, operator}`, with only the equality operator in use.
pub struct Filter {
    pub ttype: String,
    pub value: String,
    pub operator: String,
}

pub struct FilterView {
    pub ttype: Seq<char>,
    pub value: Seq<char>,
    pub operator: Seq<char>,
}

impl View for Filter {
    type V = FilterView;

    open spec fn view(&self) -> FilterView {
        FilterView { ttype: self.ttype@, value: self.value@, operator: self.operator@ }
    }
}

/// A disjunction of filters together with the pagination cursor: the body of
/// one query call.  `page` is advanced by the caller between pages of the
/// same zone; the container is never shared across zones.
pub struct FilterContainer {
    pub or: Vec<Filter>,
    pub page: usize,
    pub limit: usize,
}

pub struct FilterContainerView {
    pub or: Seq<FilterView>,
    pub page: usize,
    pub limit: usize,
}

impl View for FilterContainer {
    type V = FilterContainerView;

    open spec fn view(&self) -> FilterContainerView {
        FilterContainerView {
            or: Seq::new(self.or@.len(), |i: int| self.or@[i]@),
            page: self.page,
            limit: self.limit,
        }
    }
}

/// An administrative grouping of access points on the controller.
pub struct Zone {
    id: String,
    pub name: String,
}

pub struct ZoneView {
    pub id: Seq<char>,
    pub name: Seq<char>,
}

impl View for Zone {
    type V = ZoneView;

    closed spec fn view(&self) -> ZoneView {
        ZoneView { id: self.id@, name: self.name@ }
    }
}

impl Zone {
    pub fn new(id: String, name: String) -> (z: Zone)
        ensures
            z@.id == id@,
            z@.name == name@,
    {
        Zone { id, name }
    }
}

/// An access point known only by its MAC address, as some query responses
/// report it.
pub struct MiniAp {
    pub ap_mac: String,
}

/// The JSON rendering of one filter, as the controller's query endpoint
/// expects it.
pub open spec fn spec_render_filter(f: FilterView) -> Seq<char> {
    "{\"type\":"@ + spec_json_string(f.ttype) + ",\"value\":"@ + spec_json_string(f.value)
        + ",\"operator\":"@ + spec_json_string(f.operator) + "}"@
}

/// The comma-joined renderings of a sequence of filters.
pub open spec fn spec_render_filters(fs: Seq<FilterView>) -> Seq<char>
    decreases fs.len(),
{
    if fs.len() == 0 {
        Seq::empty()
    } else if fs.len() == 1 {
        spec_render_filter(fs[0])
    } else {
        spec_render_filters(fs.drop_last()) + seq![','] + spec_render_filter(fs.last())
    }
}

/// The JSON rendering of a filter container.  When the filter list is empty
/// the `filters` field is left out entirely; it is never written as an empty
/// array.
pub open spec fn spec_render_container(fc: FilterContainerView) -> Seq<char> {
    if fc.or.len() == 0 {
        "{\"page\":"@ + spec_dec(fc.page as int) + ",\"limit\":"@ + spec_dec(fc.limit as int)
            + "}"@
    } else {
        "{\"filters\":["@ + spec_render_filters(fc.or) + "],\"page\":"@ + spec_dec(fc.page as int)
            + ",\"limit\":"@ + spec_dec(fc.limit as int) + "}"@
    }
}

/// With an empty filter list the rendered container is exactly the
/// page-and-limit object: no `filters` key occurs in it.
pub proof fn lemma_empty_filters_omitted(fc: FilterContainerView)
    requires
        fc.or.len() == 0,
    ensures
        spec_render_container(fc) == "{\"page\":"@ + spec_dec(fc.page as int) + ",\"limit\":"@
            + spec_dec(fc.limit as int) + "}"@,
{
}

fn append_filter(out: &mut String, f: &Filter)
    ensures
        final(out)@ == old(out)@ + spec_render_filter(f@),
{
    out.append("{\"type\":");
    append_json_string(out, f.ttype.as_str());
    out.append(",\"value\":");
    append_json_string(out, f.value.as_str());
    out.append(",\"operator\":");
    append_json_string(out, f.operator.as_str());
    out.append("}");
    proof {
        assert(final(out)@ =~= old(out)@ + spec_render_filter(f@));
    }
}

proof fn lemma_render_filters_step(fs: Seq<FilterView>, i: int)
    requires
        0 <= i < fs.len(),
    ensures
        spec_render_filters(fs.take(i + 1)) == if i == 0 {
            spec_render_filter(fs[0])
        } else {
            spec_render_filters(fs.take(i)) + seq![','] + spec_render_filter(fs[i])
        },
{
    let t = fs.take(i + 1);
    assert(t.len() == i + 1);
    if i == 0 {
        assert(t[0] == fs[0]);
    } else {
        assert(t.drop_last() =~= fs.take(i));
        assert(t.last() == fs[i]);
    }
}

impl Default for FilterContainer {
    /// An empty container with the cursor unset.
    fn default() -> (r: FilterContainer)
        ensures
            r@.or.len() == 0,
            r@.page == 0,
            r@.limit == 0,
    {
        FilterContainer { or: Vec::new(), page: 0, limit: 0 }
    }
}

impl FilterContainer {
    /// A container holding the given filters, with the cursor unset.
    pub fn from_filters(filters: Vec<Filter>) -> (r: FilterContainer)
        ensures
            r@.or == Seq::new(filters@.len(), |i: int| filters@[i]@),
            r@.page == 0,
            r@.limit == 0,
    {
        FilterContainer { or: filters, page: 0, limit: 0 }
    }

    /// Renders the container as the JSON body of one query call.
    pub fn to_json(&self) -> (s: String)
        ensures
            s@ == spec_render_container(self@),
    {
        let ghost fv = self@.or;
        let mut s = String::new();
        if self.or.len() == 0 {
            s.append("{\"page\":");
        } else {
            s.append("{\"filters\":[");
            let mut i: usize = 0;
            while i < self.or.len()
                invariant
                    0 < self.or@.len(),
                    0 <= i <= self.or@.len(),
                    fv == self@.or,
                    fv.len() == self.or@.len(),
                    s@ == "{\"filters\":["@ + spec_render_filters(fv.take(i as int)),
                decreases self.or@.len() - i,
            {
                if i > 0 {
                    s.push(',');
                }
                append_filter(&mut s, &self.or[i]);
                proof {
                    lemma_render_filters_step(fv, i as int);
                    assert(fv[i as int] == self.or@[i as int]@);
                    if i == 0 {
                        assert(spec_render_filters(fv.take(0)) =~= Seq::<char>::empty());
                        assert(s@ =~= "{\"filters\":["@ + spec_render_filters(fv.take(1)));
                    } else {
                        assert(s@ =~= "{\"filters\":["@ + spec_render_filters(
                            fv.take(i + 1 as int),
                        ));
                    }
                }
                i = i + 1;
            }
            proof {
                assert(fv.take(fv.len() as int) =~= fv);
            }
            s.append("],\"page\":");
            proof {
                assert(s@ =~= "{\"filters\":["@ + spec_render_filters(fv) + "],\"page\":"@);
            }
        }
        let page64: u64 = self.page as u64;
        let limit64: u64 = self.limit as u64;
        let pstr = u64_to_string(page64);
        s.append(pstr.as_str());
        s.append(",\"limit\":");
        let lstr = u64_to_string(limit64);
        s.append(lstr.as_str());
        s.append("}");
        proof {
            assert(s@ =~= spec_render_container(self@));
        }
        s
    }
}

impl Filter {
    /// The equality filter selecting one access point by its MAC address.
    pub fn from_mini_ap(value: &MiniAp) -> (r: Filter)
        ensures
            r@.ttype == "AP"@,
            r@.value == value.ap_mac@,
            r@.operator == "eq"@,
    {
        Filter {
            ttype: String::from_str("AP"),
            value: value.ap_mac.clone(),
            operator: String::from_str("eq"),
        }
    }
}

impl Zone {
    /// The equality filter selecting this zone.
    pub fn to_filter(&self) -> (r: Filter)
        ensures
            r@.ttype == "ZONE"@,
            r@.value == self@.id,
            r@.operator == "eq"@,
    {
        Filter {
            ttype: String::from_str("ZONE"),
            value: self.id.clone(),
            operator: String::from_str("eq"),
        }
    }

    /// The filter container with which a scrape starts paging over this
    /// zone: the zone's own filter, the first page, thirty records a page.
    pub fn to_filter_container(&self) -> (r: FilterContainer)
        ensures
            r@.or.len() == 1,
            r@.or[0].ttype == "ZONE"@,
            r@.or[0].value == self@.id,
            r@.or[0].operator == "eq"@,
            r@.page == 1,
            r@.limit == 30,
    {
        let f = self.to_filter();
        let mut or: Vec<Filter> = Vec::new();
        or.push(f);
        FilterContainer { or, page: 1, limit: 30 }
    }
}

/// How a call against the controller fails, short of the transport itself.
#[derive(Debug)]
pub enum SzError {
    /// The controller advertises no API version this client speaks: a
    /// permanent configuration error.
    UnsupportedApiVersion,
    /// The login call came back with a non-success HTTP status.
    LoginFailed { status: u16 },
    /// The login response carried no session cookie.
    MissingSessionCookie,
    /// A call that needs an authenticated session was made with none.
    NoSession,
    /// The response body did not decode as the schema calls for.
    Decode(DecodeError),
}

/// Which entity type a query asks for.
pub enum Query {
    Clients,
    Aps,
}

impl Query {
    /// The path segment of the entity-specific query endpoint.
    pub fn endpoint(&self) -> (r: &str)
        ensures
            self is Clients ==> r@ == "client"@,
            self is Aps ==> r@ == "ap"@,
    {
        match self {
            Query::Clients => "client",
            Query::Aps => "ap",
        }
    }
}

/// One page of query results: the advisory total, the `hasMore` flag that
/// alone ends pagination, the index of the first record, and the records.
pub struct QueryResults<T> {
    pub total_count: u64,
    pub has_more: bool,
    pub first_index: u64,
    pub list: Vec<T>,
}

pub struct QueryResultsView<TV> {
    pub total_count: u64,
    pub has_more: bool,
    pub first_index: u64,
    pub list: Seq<TV>,
}

impl<T: View> View for QueryResults<T> {
    type V = QueryResultsView<T::V>;

    open spec fn view(&self) -> QueryResultsView<T::V> {
        QueryResultsView {
            total_count: self.total_count,
            has_more: self.has_more,
            first_index: self.first_index,
            list: Seq::new(self.list@.len(), |i: int| self.list@[i]@),
        }
    }
}

/// Whether a page's header fields are present and well-typed.
pub open spec fn page_header_ok(fields: Seq<(Seq<char>, JsonView)>) -> bool {
    &&& spec_field_u64(fields, "totalCount"@) is Some
    &&& spec_field_bool(fields, "hasMore"@) is Some
    &&& spec_field_u64(fields, "firstIndex"@) is Some
}

/// Whether every record of a page decodes as an access point.
pub open spec fn all_aps_ok(elems: Seq<JsonView>) -> bool {
    forall|i: int| 0 <= i < elems.len() ==> spec_decode_ap(elems[i]) is Some
}

/// The access point records of a page, in page order.
pub open spec fn spec_ap_list(elems: Seq<JsonView>) -> Seq<ApView> {
    Seq::new(elems.len(), |i: int| spec_decode_ap(elems[i])->0)
}

/// The access point page that a JSON document decodes to, if any.
pub open spec fn spec_decode_ap_page_doc(v: JsonView) -> Option<QueryResultsView<ApView>> {
    match v {
        JsonView::Obj(fields) => if page_header_ok(fields) {
            match spec_lookup(fields, "list"@) {
                Some(JsonView::Arr(elems)) => if all_aps_ok(elems) {
                    Some(
                        QueryResultsView {
                            total_count: spec_field_u64(fields, "totalCount"@)->0,
                            has_more: spec_field_bool(fields, "hasMore"@)->0,
                            first_index: spec_field_u64(fields, "firstIndex"@)->0,
                            list: spec_ap_list(elems),
                        },
                    )
                } else {
                    None
                },
                _ => None,
            }
        } else {
            None
        },
        _ => None,
    }
}

/// The access point page that a response body decodes to, if any.
pub open spec fn spec_decode_ap_page(s: Seq<char>) -> Option<QueryResultsView<ApView>> {
    match spec_parse_json(s) {
        Some(v) => spec_decode_ap_page_doc(v),
        None => None,
    }
}

/// Decodes one page of access point query results from a response body.
/// Succeeds exactly when the body parses and carries the page header and a
/// `list` array whose every record decodes; a syntax error is reported as
/// such, with its column offset.
#[verifier::loop_isolation(false)]
pub fn decode_ap_page(body: &str) -> (r: Result<QueryResults<AP>, DecodeError>)
    ensures
        match r {
            Ok(q) => spec_decode_ap_page(body@) == Some(q@),
            Err(e) => {
                &&& spec_decode_ap_page(body@) is None
                &&& (e is Syntax <==> spec_parse_json(body@) is None)
            },
        },
{
    let doc = parse_json(body)?;
    match &doc {
        JsonValue::Obj(fields) => {
            let total_count = JsonValue::req_u64(fields, "totalCount")?;
            let has_more = JsonValue::req_bool(fields, "hasMore")?;
            let first_index = JsonValue::req_u64(fields, "firstIndex")?;
            match JsonValue::lookup(fields, &String::from_str("list")) {
                Some(JsonValue::Arr(elems)) => {
                    let ghost ev = JsonValue::seq_view(elems@);
                    proof {
                        JsonValue::lemma_seq_view_index(elems@);
                    }
                    let mut list: Vec<AP> = Vec::new();
                    let mut i: usize = 0;
                    while i < elems.len()
                        invariant
                            0 <= i <= elems@.len(),
                            ev == JsonValue::seq_view(elems@),
                            ev.len() == elems@.len(),
                            forall|j: int| 0 <= j < elems@.len() ==> ev[j] == elems@[j]@,
                            list@.len() == i,
                            forall|j: int| 0 <= j < i ==> (#[trigger] spec_decode_ap(ev[j])) is Some,
                            forall|j: int|
                                0 <= j < i ==> (#[trigger] list@[j])@ == spec_decode_ap(ev[j])->0,
                        decreases elems@.len() - i,
                    {
                        proof {
                            assert(ev[i as int] == elems@[i as int]@);
                        }
                        let ap = match AP::decode(&elems[i]) {
                            Ok(ap) => ap,
                            Err(e) => {
                                proof {
                                    assert(spec_decode_ap(ev[i as int]) is None);
                                    assert(!all_aps_ok(ev));
                                    assert(spec_decode_ap_page_doc(doc@) is None);
                                }
                                return Err(e);
                            },
                        };
                        let ghost pre = list@;
                        list.push(ap);
                        proof {
                            assert forall|j: int|
                                0 <= j < i + 1 implies (#[trigger] spec_decode_ap(ev[j])) is Some by {
                                if j == i {
                                    assert(spec_decode_ap(ev[j]) == Some(ap@));
                                }
                            }
                            assert forall|j: int|
                                0 <= j < i + 1 implies (#[trigger] list@[j])@ == spec_decode_ap(
                                ev[j],
                            )->0 by {
                                if j < i {
                                    assert(list@[j] == pre[j]);
                                } else {
                                    assert(list@[j] == ap);
                                }
                            }
                        }
                        i = i + 1;
                    }
                    let q = QueryResults { total_count, has_more, first_index, list };
                    proof {
                        assert(q@.list =~= spec_ap_list(ev));
                    }
                    Ok(q)
                },
                _ => Err(DecodeError::Field { name: String::from_str("list") }),
            }
        },
        _ => Err(DecodeError::NotObject),
    }
}

/// Whether every record of a page decodes as a client.
pub open spec fn all_clients_ok(elems: Seq<JsonView>) -> bool {
    forall|i: int| 0 <= i < elems.len() ==> spec_decode_client(elems[i]) is Some
}

/// The client records of a page, in page order.
pub open spec fn spec_client_list(elems: Seq<JsonView>) -> Seq<ClientView> {
    Seq::new(elems.len(), |i: int| spec_decode_client(elems[i])->0)
}

/// The client page that a JSON document decodes to, if any.
pub open spec fn spec_decode_client_page_doc(v: JsonView) -> Option<QueryResultsView<ClientView>> {
    match v {
        JsonView::Obj(fields) => if page_header_ok(fields) {
            match spec_lookup(fields, "list"@) {
                Some(JsonView::Arr(elems)) => if all_clients_ok(elems) {
                    Some(
                        QueryResultsView {
                            total_count: spec_field_u64(fields, "totalCount"@)->0,
                            has_more: spec_field_bool(fields, "hasMore"@)->0,
                            first_index: spec_field_u64(fields, "firstIndex"@)->0,
                            list: spec_client_list(elems),
                        },
                    )
                } else {
                    None
                },
                _ => None,
            }
        } else {
            None
        },
        _ => None,
    }
}

/// The client page that a response body decodes to, if any.
pub open spec fn spec_decode_client_page(s: Seq<char>) -> Option<QueryResultsView<ClientView>> {
    match spec_parse_json(s) {
        Some(v) => spec_decode_client_page_doc(v),
        None => None,
    }
}

/// Decodes one page of client query results from a response body, as
/// `decode_ap_page` does for access points.
#[verifier::loop_isolation(false)]
pub fn decode_client_page(body: &str) -> (r: Result<QueryResults<Client>, DecodeError>)
    ensures
        match r {
            Ok(q) => spec_decode_client_page(body@) == Some(q@),
            Err(e) => {
                &&& spec_decode_client_page(body@) is None
                &&& (e is Syntax <==> spec_parse_json(body@) is None)
            },
        },
{
    let doc = parse_json(body)?;
    match &doc {
        JsonValue::Obj(fields) => {
            let total_count = JsonValue::req_u64(fields, "totalCount")?;
            let has_more = JsonValue::req_bool(fields, "hasMore")?;
            let first_index = JsonValue::req_u64(fields, "firstIndex")?;
            match JsonValue::lookup(fields, &String::from_str("list")) {
                Some(JsonValue::Arr(elems)) => {
                    let ghost ev = JsonValue::seq_view(elems@);
                    proof {
                        JsonValue::lemma_seq_view_index(elems@);
                    }
                    let mut list: Vec<Client> = Vec::new();
                    let mut i: usize = 0;
                    while i < elems.len()
                        invariant
                            0 <= i <= elems@.len(),
                            ev == JsonValue::seq_view(elems@),
                            ev.len() == elems@.len(),
                            forall|j: int| 0 <= j < elems@.len() ==> ev[j] == elems@[j]@,
                            list@.len() == i,
                            forall|j: int|
                                0 <= j < i ==> (#[trigger] spec_decode_client(ev[j])) is Some,
                            forall|j: int|
                                0 <= j < i ==> (#[trigger] list@[j])@ == spec_decode_client(ev[j])->0,
                        decreases elems@.len() - i,
                    {
                        proof {
                            assert(ev[i as int] == elems@[i as int]@);
                        }
                        let c = match Client::decode(&elems[i]) {
                            Ok(c) => c,
                            Err(e) => {
                                proof {
                                    assert(spec_decode_client(ev[i as int]) is None);
                                    assert(!all_clients_ok(ev));
                                    assert(spec_decode_client_page_doc(doc@) is None);
                                }
                                return Err(e);
                            },
                        };
                        let ghost pre = list@;
                        list.push(c);
                        proof {
                            assert forall|j: int|
                                0 <= j < i + 1 implies (#[trigger] spec_decode_client(
                                ev[j],
                            )) is Some by {
                                if j == i {
                                    assert(spec_decode_client(ev[j]) == Some(c@));
                                }
                            }
                            assert forall|j: int|
                                0 <= j < i + 1 implies (#[trigger] list@[j])@ == spec_decode_client(
                                ev[j],
                            )->0 by {
                                if j < i {
                                    assert(list@[j] == pre[j]);
                                } else {
                                    assert(list@[j] == c);
                                }
                            }
                        }
                        i = i + 1;
                    }
                    let q = QueryResults { total_count, has_more, first_index, list };
                    proof {
                        assert(q@.list =~= spec_client_list(ev));
                    }
                    Ok(q)
                },
                _ => Err(DecodeError::Field { name: String::from_str("list") }),
            }
        },
        _ => Err(DecodeError::NotObject),
    }
}

/// The version of the controller's API that this client speaks.
pub open spec fn spec_supported_version() -> Seq<char> {
    "v11_1"@
}

/// Whether some advertised version is the one this client speaks.
pub open spec fn spec_supported(versions: Seq<Seq<char>>) -> bool {
    exists|i: int| 0 <= i < versions.len() && versions[i] == spec_supported_version()
}

/// The session manager: it owns the controller credentials and, once login
/// has succeeded, the session cookie.  A query issued with no session is
/// refused; nothing but `login` ever sets the session.
pub struct Auth {
    pub username: String,
    pub password: String,
    pub time_zone_utc_offset: String,
    session: Option<String>,
}

pub struct AuthView {
    pub username: Seq<char>,
    pub password: Seq<char>,
    pub time_zone_utc_offset: Seq<char>,
    pub session: Option<Seq<char>>,
}

impl View for Auth {
    type V = AuthView;

    closed spec fn view(&self) -> AuthView {
        AuthView {
            username: self.username@,
            password: self.password@,
            time_zone_utc_offset: self.time_zone_utc_offset@,
            session: match self.session {
                Some(ref c) => Some(c@),
                None => None,
            },
        }
    }
}

/// The JSON body of the login call: the credentials and the UTC offset,
/// nothing else.
pub open spec fn spec_login_body(a: AuthView) -> Seq<char> {
    "{\"username\":"@ + spec_json_string(a.username) + ",\"password\":"@ + spec_json_string(
        a.password,
    ) + ",\"timeZoneUtcOffset\":"@ + spec_json_string(a.time_zone_utc_offset) + "}"@
}

/// The path of the entity-specific query endpoint.
pub open spec fn spec_query_path(q: Query) -> Seq<char> {
    "/wsg/api/public/v11_1/query/"@ + if q is Clients {
        "client"@
    } else {
        "ap"@
    }
}

/// Everything one query call needs beyond the controller's base address:
/// the endpoint path, the session cookie, and the serialized filter body.
pub struct QueryRequest {
    pub path: String,
    pub cookie: String,
    pub body: String,
}

impl Auth {
    /// A session manager for the given credentials, provided the controller
    /// advertises the one API version this client speaks.  A version
    /// mismatch is a permanent configuration error, not a transient one;
    /// no session exists until `login` succeeds.
    pub fn new(username: String, password: String, api_versions: &Vec<String>) -> (r: Result<
        Auth,
        SzError,
    >)
        ensures
            r is Ok <==> spec_supported(Seq::new(api_versions@.len(), |i: int| api_versions@[i]@)),
            r matches Ok(a) ==> {
                &&& a@.username == username@
                &&& a@.password == password@
                &&& a@.time_zone_utc_offset == "-07:00"@
                &&& a@.session is None
            },
            r matches Err(e) ==> e is UnsupportedApiVersion,
    {
        let ghost vv = Seq::new(api_versions@.len(), |i: int| api_versions@[i]@);
        let wanted = String::from_str("v11_1");
        let mut supported = false;
        let mut i: usize = 0;
        while i < api_versions.len()
            invariant
                0 <= i <= api_versions@.len(),
                vv == Seq::new(api_versions@.len(), |k: int| api_versions@[k]@),
                wanted@ == spec_supported_version(),
                supported <==> exists|j: int| 0 <= j < i && vv[j] == spec_supported_version(),
            decreases api_versions@.len() - i,
        {
            if api_versions[i] == wanted {
                supported = true;
                proof {
                    assert(vv[i as int] == spec_supported_version());
                }
            }
            i = i + 1;
        }
        if supported {
            Ok(
                Auth {
                    username,
                    password,
                    time_zone_utc_offset: String::from_str("-07:00"),
                    session: None,
                },
            )
        } else {
            Err(SzError::UnsupportedApiVersion)
        }
    }

    /// Renders the body of the login call.
    pub fn login_body(&self) -> (s: String)
        ensures
            s@ == spec_login_body(self@),
    {
        let mut s = String::new();
        s.append("{\"username\":");
        append_json_string(&mut s, self.username.as_str());
        s.append(",\"password\":");
        append_json_string(&mut s, self.password.as_str());
        s.append(",\"timeZoneUtcOffset\":");
        append_json_string(&mut s, self.time_zone_utc_offset.as_str());
        s.append("}");
        proof {
            assert(s@ =~= spec_login_body(self@));
        }
        s
    }

    /// Applies the controller's answer to the login call.  A session exists
    /// afterwards exactly when the status was success and a session cookie
    /// came with it; on any failure the manager is left as it was, with no
    /// partially-initialized session observable.
    pub fn login(&mut self, status: u16, set_cookie: Option<String>) -> (r: Result<(), SzError>)
        ensures
            r is Ok <==> (status == 200 && set_cookie is Some),
            r is Ok ==> final(self)@ == (AuthView {
                session: Some(set_cookie->0@),
                ..old(self)@
            }),
            status != 200 ==> r == Err::<(), SzError>(SzError::LoginFailed { status })
                && final(self)@ == old(self)@,
            status == 200 && set_cookie is None ==> r == Err::<(), SzError>(
                SzError::MissingSessionCookie,
            ) && final(self)@ == old(self)@,
    {
        if status != 200 {
            return Err(SzError::LoginFailed { status });
        }
        match set_cookie {
            Some(c) => {
                self.session = Some(c);
                Ok(())
            },
            None => Err(SzError::MissingSessionCookie),
        }
    }

    /// The cookie to revoke at shutdown, if a session exists; logout with no
    /// session is a no-op.
    pub fn logout(&self) -> (r: Option<&String>)
        ensures
            match r {
                Some(c) => self@.session == Some(c@),
                None => self@.session is None,
            },
    {
        match &self.session {
            Some(c) => Some(c),
            None => None,
        }
    }

    /// Whether a session is active.
    pub fn has_session(&self) -> (r: bool)
        ensures
            r == (self@.session is Some),
    {
        match &self.session {
            Some(_) => true,
            None => false,
        }
    }

    /// The active session's cookie, or the refusal to proceed without one.
    pub fn session_cookie(&self) -> (r: Result<&String, SzError>)
        ensures
            match r {
                Ok(c) => self@.session == Some(c@),
                Err(e) => self@.session is None && e is NoSession,
            },
    {
        match &self.session {
            Some(c) => Ok(c),
            None => Err(SzError::NoSession),
        }
    }

    /// Prepares one query call: the endpoint for the asked-for entity type,
    /// the active session's cookie, and the filter container as the body.
    /// Refused outright when no session is active.
    pub fn query(&self, filter: &FilterContainer, opt: &Query) -> (r: Result<QueryRequest, SzError>)
        ensures
            r is Ok <==> self@.session is Some,
            r matches Ok(req) ==> {
                &&& req.path@ == spec_query_path(*opt)
                &&& self@.session == Some(req.cookie@)
                &&& req.body@ == spec_render_container(filter@)
            },
            r matches Err(e) ==> e is NoSession,
    {
        let cookie = match &self.session {
            Some(c) => c.clone(),
            None => { return Err(SzError::NoSession) },
        };
        let mut path = String::from_str("/wsg/api/public/v11_1/query/");
        path.append(opt.endpoint());
        let body = filter.to_json();
        Ok(QueryRequest { path, cookie, body })
    }
}

/// Whether a zone record's fields are present and well-typed.
pub open spec fn zone_fields_ok(fields: Seq<(Seq<char>, JsonView)>) -> bool {
    &&& spec_field_string(fields, "id"@) is Some
    &&& spec_field_string(fields, "name"@) is Some
}

/// The zone that a JSON document decodes to, if any.
pub open spec fn spec_decode_zone(v: JsonView) -> Option<ZoneView> {
    match v {
        JsonView::Obj(fields) => if zone_fields_ok(fields) {
            Some(
                ZoneView {
                    id: spec_field_string(fields, "id"@)->0,
                    name: spec_field_string(fields, "name"@)->0,
                },
            )
        } else {
            None
        },
        _ => None,
    }
}

/// Whether every record of the zone listing decodes as a zone.
pub open spec fn all_zones_ok(elems: Seq<JsonView>) -> bool {
    forall|i: int| 0 <= i < elems.len() ==> spec_decode_zone(elems[i]) is Some
}

/// The zones of the listing, in listing order.
pub open spec fn spec_zone_list(elems: Seq<JsonView>) -> Seq<ZoneView> {
    Seq::new(elems.len(), |i: int| spec_decode_zone(elems[i])->0)
}

/// The zone listing that a JSON document decodes to, if any.
pub open spec fn spec_decode_zones_doc(v: JsonView) -> Option<Seq<ZoneView>> {
    match v {
        JsonView::Obj(fields) => match spec_lookup(fields, "list"@) {
            Some(JsonView::Arr(elems)) => if all_zones_ok(elems) {
                Some(spec_zone_list(elems))
            } else {
                None
            },
            _ => None,
        },
        _ => None,
    }
}

/// The zone listing that a response body decodes to, if any.
pub open spec fn spec_decode_zones(s: Seq<char>) -> Option<Seq<ZoneView>> {
    match spec_parse_json(s) {
        Some(v) => spec_decode_zones_doc(v),
        None => None,
    }
}

fn decode_zone(v: &JsonValue) -> (r: Result<Zone, DecodeError>)
    ensures
        match r {
            Ok(z) => spec_decode_zone(v@) == Some(z@),
            Err(e) => spec_decode_zone(v@) is None && !(e is Syntax),
        },
{
    match v {
        JsonValue::Obj(fields) => {
            let id = JsonValue::req_string(fields, "id")?;
            let name = JsonValue::req_string(fields, "name")?;
            Ok(Zone { id, name })
        },
        _ => Err(DecodeError::NotObject),
    }
}

/// Whether every element is a JSON string.
pub open spec fn all_strings_ok(elems: Seq<JsonView>) -> bool {
    forall|i: int| 0 <= i < elems.len() ==> elems[i] is Str
}

/// The text of a JSON string document; the empty text for any other kind.
pub open spec fn spec_str_of(v: JsonView) -> Seq<char> {
    match v {
        JsonView::Str(s) => s,
        _ => Seq::empty(),
    }
}

/// The advertised version strings, in listing order.
pub open spec fn spec_string_list(elems: Seq<JsonView>) -> Seq<Seq<char>> {
    Seq::new(elems.len(), |i: int| spec_str_of(elems[i]))
}

/// The version listing that a JSON document decodes to, if any.
pub open spec fn spec_decode_api_info_doc(v: JsonView) -> Option<Seq<Seq<char>>> {
    match v {
        JsonView::Obj(fields) => match spec_lookup(fields, "apiSupportVersions"@) {
            Some(JsonView::Arr(elems)) => if all_strings_ok(elems) {
                Some(spec_string_list(elems))
            } else {
                None
            },
            _ => None,
        },
        _ => None,
    }
}

/// The version listing that a response body decodes to, if any.
pub open spec fn spec_decode_api_info(s: Seq<char>) -> Option<Seq<Seq<char>>> {
    match spec_parse_json(s) {
        Some(v) => spec_decode_api_info_doc(v),
        None => None,
    }
}

/// Decodes the capability endpoint's answer: the list of API versions the
/// controller advertises.
#[verifier::loop_isolation(false)]
pub fn decode_api_info(body: &str) -> (r: Result<Vec<String>, DecodeError>)
    ensures
        match r {
            Ok(vs) => spec_decode_api_info(body@) == Some(
                Seq::new(vs@.len(), |i: int| vs@[i]@),
            ),
            Err(e) => {
                &&& spec_decode_api_info(body@) is None
                &&& (e is Syntax <==> spec_parse_json(body@) is None)
            },
        },
{
    let doc = parse_json(body)?;
    match &doc {
        JsonValue::Obj(fields) => {
            match JsonValue::lookup(fields, &String::from_str("apiSupportVersions")) {
                Some(JsonValue::Arr(elems)) => {
                    let ghost ev = JsonValue::seq_view(elems@);
                    proof {
                        JsonValue::lemma_seq_view_index(elems@);
                    }
                    let mut vs: Vec<String> = Vec::new();
                    let mut i: usize = 0;
                    while i < elems.len()
                        invariant
                            0 <= i <= elems@.len(),
                            vs@.len() == i,
                            forall|j: int| 0 <= j < i ==> (#[trigger] ev[j]) is Str,
                            forall|j: int|
                                0 <= j < i ==> (#[trigger] vs@[j])@ == spec_str_of(ev[j]),
                        decreases elems@.len() - i,
                    {
                        proof {
                            assert(ev[i as int] == elems@[i as int]@);
                        }
                        let s = match &elems[i] {
                            JsonValue::Str(s) => s.clone(),
                            _ => {
                                proof {
                                    assert(!all_strings_ok(ev));
                                }
                                return Err(
                                    DecodeError::Field {
                                        name: String::from_str("apiSupportVersions"),
                                    },
                                );
                            },
                        };
                        let ghost pre = vs@;
                        vs.push(s);
                        proof {
                            assert forall|j: int| 0 <= j < i + 1 implies (#[trigger] ev[j]) is Str by {}
                            assert forall|j: int|
                                0 <= j < i + 1 implies (#[trigger] vs@[j])@ == spec_str_of(
                                ev[j],
                            ) by {
                                if j < i {
                                    assert(vs@[j] == pre[j]);
                                }
                            }
                        }
                        i = i + 1;
                    }
                    proof {
                        assert(Seq::new(vs@.len(), |i: int| vs@[i]@) =~= spec_string_list(ev));
                    }
                    Ok(vs)
                },
                _ => Err(DecodeError::Field { name: String::from_str("apiSupportVersions") }),
            }
        },
        _ => Err(DecodeError::NotObject),
    }
}

impl Auth {
    /// Decodes the zone listing, provided a session is active: zones are
    /// never fetched without one.
    #[verifier::loop_isolation(false)]
    pub fn get_zones(&self, body: &str) -> (r: Result<Vec<Zone>, SzError>)
        ensures
            match r {
                Ok(zs) => self@.session is Some && spec_decode_zones(body@) == Some(
                    Seq::new(zs@.len(), |i: int| zs@[i]@),
                ),
                Err(SzError::NoSession) => self@.session is None,
                Err(SzError::Decode(e)) => {
                    &&& self@.session is Some
                    &&& spec_decode_zones(body@) is None
                    &&& (e is Syntax <==> spec_parse_json(body@) is None)
                },
                Err(_) => false,
            },
    {
        if !self.has_session() {
            return Err(SzError::NoSession);
        }
        let doc = match parse_json(body) {
            Ok(doc) => doc,
            Err(e) => { return Err(SzError::Decode(e)) },
        };
        match &doc {
            JsonValue::Obj(fields) => {
                match JsonValue::lookup(fields, &String::from_str("list")) {
                    Some(JsonValue::Arr(elems)) => {
                        let ghost ev = JsonValue::seq_view(elems@);
                        proof {
                            JsonValue::lemma_seq_view_index(elems@);
                        }
                        let mut zs: Vec<Zone> = Vec::new();
                        let mut i: usize = 0;
                        while i < elems.len()
                            invariant
                                0 <= i <= elems@.len(),
                                zs@.len() == i,
                                forall|j: int|
                                    0 <= j < i ==> (#[trigger] spec_decode_zone(ev[j])) is Some,
                                forall|j: int|
                                    0 <= j < i ==> (#[trigger] zs@[j])@ == spec_decode_zone(
                                    ev[j],
                                )->0,
                            decreases elems@.len() - i,
                        {
                            proof {
                                assert(ev[i as int] == elems@[i as int]@);
                            }
                            let z = match decode_zone(&elems[i]) {
                                Ok(z) => z,
                                Err(e) => {
                                    proof {
                                        assert(!all_zones_ok(ev));
                                    }
                                    return Err(SzError::Decode(e));
                                },
                            };
                            let ghost pre = zs@;
                            zs.push(z);
                            proof {
                                assert forall|j: int|
                                    0 <= j < i + 1 implies (#[trigger] spec_decode_zone(
                                    ev[j],
                                )) is Some by {
                                    if j == i {
                                        assert(spec_decode_zone(ev[j]) == Some(z@));
                                    }
                                }
                                assert forall|j: int|
                                    0 <= j < i + 1 implies (#[trigger] zs@[j])@ == spec_decode_zone(
                                    ev[j],
                                )->0 by {
                                    if j < i {
                                        assert(zs@[j] == pre[j]);
                                    } else {
                                        assert(zs@[j] == z);
                                    }
                                }
                            }
                            i = i + 1;
                        }
                        proof {
                            assert(Seq::new(zs@.len(), |i: int| zs@[i]@) =~= spec_zone_list(ev));
                        }
                        Ok(zs)
                    },
                    _ => Err(SzError::Decode(DecodeError::Field { name: String::from_str("list") })),
                }
            },
            _ => Err(SzError::Decode(DecodeError::NotObject)),
        }
    }
}

} // verus!
