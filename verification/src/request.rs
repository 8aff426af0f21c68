//! The request as the parameters describe it: headers, query parameters and
//! body, before anything is sent.

use vstd::prelude::*;
use crate::auth::{Password, PasswordView};
use crate::errors::{Error, JsonCategory};
use crate::json::{json_parsed, parse_json};
use crate::param::{Parameter, ParameterView, Separator};

verus! {

/// The value of one field of the body.
#[derive(Debug, Clone, PartialEq, Eq)]
pub enum BodyValue {
    /// A string with these characters.
    Text(String),
    /// The JSON value with this compact text.
    Json(String),
}

/// The mathematical value of a [`BodyValue`].
pub enum BodyValueView {
    Text(Seq<char>),
    Json(Seq<char>),
}

impl View for BodyValue {
    type V = BodyValueView;

    open spec fn view(&self) -> BodyValueView {
        match self {
            BodyValue::Text(s) => BodyValueView::Text(s@),
            BodyValue::Json(s) => BodyValueView::Json(s@),
        }
    }
}

/// One part of a multipart form.
#[derive(Debug, Clone, PartialEq, Eq)]
pub enum Part {
    /// A text field.
    Text { key: String, value: String },
    /// A file to attach under `key`.
    File { key: String, filename: String },
}

/// The mathematical value of a [`Part`].
pub enum PartView {
    Text { key: Seq<char>, value: Seq<char> },
    File { key: Seq<char>, filename: Seq<char> },
}

impl View for Part {
    type V = PartView;

    open spec fn view(&self) -> PartView {
        match self {
            Part::Text { key, value } => PartView::Text { key: key@, value: value@ },
            Part::File { key, filename } => PartView::File { key: key@, filename: filename@ },
        }
    }
}

/// The views of a vector of pairs of strings.
pub open spec fn pairs(v: Seq<(String, String)>) -> Seq<(Seq<char>, Seq<char>)> {
    v.map_values(|p: (String, String)| (p.0@, p.1@))
}

/// The views of the parts of a multipart form.
pub open spec fn parts(v: Seq<Part>) -> Seq<PartView> {
    v.map_values(|p: Part| p@)
}

/// The keys of the fields, in order.
pub open spec fn field_keys(fields: Seq<(String, BodyValue)>) -> Seq<Seq<char>> {
    fields.map_values(|f: (String, BodyValue)| f.0@)
}

/// The mapping that a sequence of fields stands for: where a key occurs
/// twice, the later field counts.
pub open spec fn fields_map(fields: Seq<(String, BodyValue)>) -> Map<Seq<char>, BodyValueView>
    decreases fields.len(),
{
    if fields.len() == 0 {
        Map::empty()
    } else {
        fields_map(fields.drop_last()).insert(fields.last().0@, fields.last().1@)
    }
}

/// Whether no key occurs twice among the fields.
pub open spec fn distinct_keys(fields: Seq<(String, BodyValue)>) -> bool {
    forall|i: int, j: int|
        0 <= i < j < fields.len() ==> (#[trigger] fields[i]).0@ != (#[trigger] fields[j]).0@
}

/// Putting a new value in the place of the field that has the key inserts
/// into the mapping.
pub proof fn lemma_fields_map_update(fields: Seq<(String, BodyValue)>, i: int, f: (String, BodyValue))
    requires
        distinct_keys(fields),
        0 <= i < fields.len(),
        fields[i].0@ == f.0@,
    ensures
        distinct_keys(fields.update(i, f)),
        fields_map(fields.update(i, f)) == fields_map(fields).insert(f.0@, f.1@),
    decreases fields.len(),
{
    let after = fields.update(i, f);
    assert forall|a: int, b: int| 0 <= a < b < after.len() implies (#[trigger] after[a]).0@ != (
    #[trigger] after[b]).0@ by {
        assert(after[a].0@ == fields[a].0@);
        assert(after[b].0@ == fields[b].0@);
    }
    if i == fields.len() - 1 {
        assert(after.drop_last() =~= fields.drop_last());
        assert(fields_map(after) =~= fields_map(fields).insert(f.0@, f.1@));
    } else {
        let front = fields.drop_last();
        assert(distinct_keys(front)) by {
            assert forall|a: int, b: int| 0 <= a < b < front.len() implies (#[trigger] front[a]).0@
                != (#[trigger] front[b]).0@ by {
                assert(front[a] == fields[a]);
                assert(front[b] == fields[b]);
            }
        }
        lemma_fields_map_update(front, i, f);
        assert(after.drop_last() =~= front.update(i, f));
        assert(after.last() == fields.last());
        assert(fields[i].0@ != fields[fields.len() - 1].0@);
        assert(fields_map(after) =~= fields_map(fields).insert(f.0@, f.1@));
    }
}

/// Puts `value` under `key`: in the place of the field that has the key, or
/// at the end where none has it.
pub fn insert_field(fields: &mut Vec<(String, BodyValue)>, key: String, value: BodyValue)
    requires
        distinct_keys(old(fields)@),
    ensures
        distinct_keys(final(fields)@),
        fields_map(final(fields)@) == fields_map(old(fields)@).insert(key@, value@),
        final(fields)@.len() > 0,
{
    let n: usize = fields.len();
    let mut i: usize = 0;
    while i < n
        invariant
            n == fields@.len(),
            fields@ == old(fields)@,
            distinct_keys(fields@),
            i <= n,
            forall|k: int| 0 <= k < i ==> (#[trigger] fields@[k]).0@ != key@,
        decreases n - i,
    {
        if fields[i].0 == key {
            proof {
                lemma_fields_map_update(fields@, i as int, (key, value));
            }
            fields.set(i, (key, value));
            return ;
        }
        i = i + 1;
    }
    proof {
        let after = fields@.push((key, value));
        assert(after.drop_last() =~= fields@);
        assert forall|a: int, b: int| 0 <= a < b < after.len() implies (#[trigger] after[a]).0@ != (
        #[trigger] after[b]).0@ by {
            if b < fields@.len() {
                assert(after[a] == fields@[a]);
                assert(after[b] == fields@[b]);
            } else {
                assert(after[a] == fields@[a]);
            }
        }
    }
    fields.push((key, value));
}

/// What the parameters seen so far have put into the request.
#[derive(Debug, Clone, PartialEq, Eq)]
pub struct Assembly {
    /// The headers, in the order given. A key may occur more than once.
    pub headers: Vec<(String, String)>,
    /// The query parameters, in the order given.
    pub query: Vec<(String, String)>,
    /// The fields of the body. No key occurs twice.
    pub data: Vec<(String, BodyValue)>,
    /// The parts of the multipart form, where the request is one.
    pub multipart: Option<Vec<Part>>,
}

/// The mathematical value of an [`Assembly`].
pub struct AssemblyView {
    pub headers: Seq<(Seq<char>, Seq<char>)>,
    pub query: Seq<(Seq<char>, Seq<char>)>,
    pub data: Map<Seq<char>, BodyValueView>,
    pub multipart: Option<Seq<PartView>>,
}

impl View for Assembly {
    type V = AssemblyView;

    open spec fn view(&self) -> AssemblyView {
        AssemblyView {
            headers: pairs(self.headers@),
            query: pairs(self.query@),
            data: fields_map(self.data@),
            multipart: match self.multipart {
                Some(v) => Some(parts(v@)),
                None => None,
            },
        }
    }
}

/// What reading a parameter's file gave, as mathematical value.
pub open spec fn file_view(file: Result<String, std::io::ErrorKind>) -> Result<
    Seq<char>,
    std::io::ErrorKind,
> {
    match file {
        Ok(content) => Ok(content@),
        Err(kind) => Err(kind),
    }
}

/// What parsing a JSON text gave, as mathematical value.
pub open spec fn json_view(json: Result<String, JsonCategory>) -> Result<Seq<char>, JsonCategory> {
    match json {
        Ok(value) => Ok(value@),
        Err(category) => Err(category),
    }
}

/// The assembly before the first parameter.
pub open spec fn empty_assembly(is_multipart: bool) -> AssemblyView {
    AssemblyView {
        headers: Seq::empty(),
        query: Seq::empty(),
        data: Map::empty(),
        multipart: if is_multipart {
            Some(Seq::empty())
        } else {
            None
        },
    }
}

/// `a` with the parsed JSON value put under `key` in the body, or the parse
/// error. `json` is what parsing the JSON text gave.
pub open spec fn with_json(
    a: AssemblyView,
    key: Seq<char>,
    json: Result<Seq<char>, JsonCategory>,
) -> Result<AssemblyView, Error> {
    match json {
        Ok(value) => Ok(AssemblyView { data: a.data.insert(key, BodyValueView::Json(value)), ..a }),
        Err(category) => Err(Error::SerdeJson(category)),
    }
}

/// The JSON text that a parameter asks to parse: the value of a raw JSON
/// parameter, or the content of the file that a raw JSON file parameter
/// names, where it could be read.
pub open spec fn json_source(
    p: ParameterView,
    file: Result<Seq<char>, std::io::ErrorKind>,
) -> Option<Seq<char>> {
    match p.kind {
        Separator::ColonEqual => Some(p.value),
        Separator::Snail => match file {
            Ok(content) => Some(content),
            Err(_) => None,
        },
        _ => None,
    }
}

/// What parsing the JSON text of a parameter gives; where the parameter
/// asks for none, an empty value that nothing looks at.
pub open spec fn json_outcome(
    p: ParameterView,
    file: Result<Seq<char>, std::io::ErrorKind>,
) -> Result<Seq<char>, JsonCategory> {
    match json_source(p, file) {
        Some(text) => json_parsed(text),
        None => Ok(Seq::empty()),
    }
}

/// What one parameter does to the assembly. `file` is what reading the
/// file gave that the parameter names; it counts only for the three kinds
/// of parameter that name a file. `json` is what parsing the parameter's
/// JSON text gave; it counts only for the two kinds that hold JSON.
///
/// - A header is appended to the headers, a query parameter to the query.
/// - A data field goes into the multipart form where there is one, else
///   into the body under its key.
/// - Raw JSON is parsed, from the value or from the file's content, and
///   goes into the body under its key.
/// - A data file's content goes into the body under its key.
/// - A form file is appended to the multipart form, and is an error where
///   there is none.
pub open spec fn stepped(
    a: AssemblyView,
    p: ParameterView,
    file: Result<Seq<char>, std::io::ErrorKind>,
    json: Result<Seq<char>, JsonCategory>,
) -> Result<AssemblyView, Error> {
    match p.kind {
        Separator::Colon => Ok(AssemblyView { headers: a.headers.push((p.key, p.value)), ..a }),
        Separator::EqualEqual => Ok(AssemblyView { query: a.query.push((p.key, p.value)), ..a }),
        Separator::Equal => match a.multipart {
            Some(form) => Ok(
                AssemblyView {
                    multipart: Some(form.push(PartView::Text { key: p.key, value: p.value })),
                    ..a
                },
            ),
            None => Ok(
                AssemblyView { data: a.data.insert(p.key, BodyValueView::Text(p.value)), ..a },
            ),
        },
        Separator::ColonEqual => with_json(a, p.key, json),
        Separator::Snail => match file {
            Ok(_) => with_json(a, p.key, json),
            Err(kind) => Err(Error::IO(kind)),
        },
        Separator::EqualAt => match file {
            Ok(content) => Ok(
                AssemblyView { data: a.data.insert(p.key, BodyValueView::Text(content)), ..a },
            ),
            Err(kind) => Err(Error::IO(kind)),
        },
        Separator::At => match a.multipart {
            Some(form) => match file {
                Ok(_) => Ok(
                    AssemblyView {
                        multipart: Some(form.push(PartView::File { key: p.key, filename: p.value })),
                        ..a
                    },
                ),
                Err(kind) => Err(Error::IO(kind)),
            },
            None => Err(Error::NotFormButHasFormFile),
        },
    }
}

/// What the parameters do to the assembly, one after the other, up to the
/// first that fails.
pub open spec fn assembled(
    a: AssemblyView,
    params: Seq<ParameterView>,
    files: Seq<Result<Seq<char>, std::io::ErrorKind>>,
) -> Result<AssemblyView, Error>
    decreases params.len(),
{
    if params.len() == 0 || files.len() == 0 {
        Ok(a)
    } else {
        match stepped(a, params[0], files[0], json_outcome(params[0], files[0])) {
            Ok(b) => assembled(b, params.skip(1), files.skip(1)),
            Err(e) => Err(e),
        }
    }
}

/// The views of a vector of parameters.
pub open spec fn param_views(params: Seq<Parameter>) -> Seq<ParameterView> {
    params.map_values(|p: Parameter| p@)
}

/// The views of what reading the parameters' files gave.
pub open spec fn file_views(files: Seq<Result<String, std::io::ErrorKind>>) -> Seq<
    Result<Seq<char>, std::io::ErrorKind>,
> {
    files.map_values(|f: Result<String, std::io::ErrorKind>| file_view(f))
}

impl Assembly {
    /// Whether no key occurs twice in the body.
    pub open spec fn wf(&self) -> bool {
        distinct_keys(self.data@)
    }

    /// The assembly before the first parameter, with an empty multipart
    /// form where `is_multipart` is set.
    pub fn new(is_multipart: bool) -> (a: Assembly)
        ensures
            a.wf(),
            a@ == empty_assembly(is_multipart),
    {
        let a = Assembly {
            headers: Vec::new(),
            query: Vec::new(),
            data: Vec::new(),
            multipart: if is_multipart {
                Some(Vec::new())
            } else {
                None
            },
        };
        assert(a@.headers =~= Seq::empty());
        assert(a@.query =~= Seq::empty());
        assert(a@.multipart =~= empty_assembly(is_multipart).multipart);
        a
    }

    /// Puts the parsed JSON value into the body under `key`, or returns
    /// the parse error.
    fn insert_json(&mut self, key: &String, json: &Result<String, JsonCategory>) -> (r: Result<
        (),
        Error,
    >)
        requires
            old(self).wf(),
        ensures
            final(self).wf(),
            match with_json(old(self)@, key@, json_view(*json)) {
                Ok(a) => r is Ok && final(self)@ == a,
                Err(e) => r == Err::<(), Error>(e) && *final(self) == *old(self),
            },
    {
        match json {
            Ok(value) => {
                insert_field(&mut self.data, key.clone(), BodyValue::Json(value.clone()));
                Ok(())
            },
            Err(category) => Err(Error::SerdeJson(*category)),
        }
    }

    /// Lets one parameter act on the assembly: parses the JSON text where
    /// the parameter holds one, and goes on as [`Assembly::apply_with`].
    pub fn apply(&mut self, param: &Parameter, file: &Result<String, std::io::ErrorKind>) -> (r:
        Result<(), Error>)
        requires
            old(self).wf(),
        ensures
            final(self).wf(),
            match stepped(
                old(self)@,
                param@,
                file_view(*file),
                json_outcome(param@, file_view(*file)),
            ) {
                Ok(a) => r is Ok && final(self)@ == a,
                Err(e) => r == Err::<(), Error>(e) && *final(self) == *old(self),
            },
    {
        let json = match param {
            Parameter::RawJsonData { value, .. } => parse_json(value.as_str()),
            Parameter::RawJsonDataFile { .. } => match file {
                Ok(content) => parse_json(content.as_str()),
                Err(_) => Ok(String::new()),
            },
            _ => Ok(String::new()),
        };
        self.apply_with(param, file, &json)
    }

    /// Lets one parameter act on the assembly. `file` is what reading the
    /// file gave that the parameter names, and `json` what parsing its JSON
    /// text gave; for a parameter that names no file, or holds no JSON, the
    /// one or the other is not looked at. Where the parameter fails, the
    /// assembly stays as it was.
    pub fn apply_with(
        &mut self,
        param: &Parameter,
        file: &Result<String, std::io::ErrorKind>,
        json: &Result<String, JsonCategory>,
    ) -> (r: Result<(), Error>)
        requires
            old(self).wf(),
        ensures
            final(self).wf(),
            match stepped(old(self)@, param@, file_view(*file), json_view(*json)) {
                Ok(a) => r is Ok && final(self)@ == a,
                Err(e) => r == Err::<(), Error>(e) && *final(self) == *old(self),
            },
    {
        match param {
            Parameter::Header { key, value } => {
                self.headers.push((key.clone(), value.clone()));
                assert(pairs(self.headers@) =~= pairs(old(self).headers@).push((key@, value@)));
                Ok(())
            },
            Parameter::Query { key, value } => {
                self.query.push((key.clone(), value.clone()));
                assert(pairs(self.query@) =~= pairs(old(self).query@).push((key@, value@)));
                Ok(())
            },
            Parameter::Data { key, value } => {
                match &mut self.multipart {
                    Some(form) => {
                        let ghost before = form@;
                        form.push(Part::Text { key: key.clone(), value: value.clone() });
                        assert(parts(form@) =~= parts(before).push(
                            PartView::Text { key: key@, value: value@ },
                        ));
                    },
                    None => {
                        insert_field(&mut self.data, key.clone(), BodyValue::Text(value.clone()));
                    },
                }
                Ok(())
            },
            Parameter::RawJsonData { key, .. } => self.insert_json(key, json),
            Parameter::RawJsonDataFile { key, .. } => match file {
                Ok(_) => self.insert_json(key, json),
                Err(kind) => Err(Error::IO(*kind)),
            },
            Parameter::DataFile { key, .. } => match file {
                Ok(content) => {
                    insert_field(&mut self.data, key.clone(), BodyValue::Text(content.clone()));
                    Ok(())
                },
                Err(kind) => Err(Error::IO(*kind)),
            },
            Parameter::FormFile { key, value } => {
                match &mut self.multipart {
                    Some(form) => match file {
                        Ok(_) => {
                            let ghost before = form@;
                            form.push(Part::File { key: key.clone(), filename: value.clone() });
                            assert(parts(form@) =~= parts(before).push(
                                PartView::File { key: key@, filename: value@ },
                            ));
                            Ok(())
                        },
                        Err(kind) => Err(Error::IO(*kind)),
                    },
                    None => Err(Error::NotFormButHasFormFile),
                }
            },
        }
    }
}

/// The body of a request.
#[derive(Debug, Clone, PartialEq, Eq)]
pub enum Body {
    /// No body at all.
    Empty,
    /// A JSON object with these fields. No key occurs twice.
    Json(Vec<(String, BodyValue)>),
    /// A form, URL-encoded, with these fields. No key occurs twice.
    Form(Vec<(String, BodyValue)>),
    /// A multipart form with these parts.
    Multipart(Vec<Part>),
}

/// The mathematical value of a [`Body`].
pub enum BodyView {
    Empty,
    Json(Map<Seq<char>, BodyValueView>),
    Form(Map<Seq<char>, BodyValueView>),
    Multipart(Seq<PartView>),
}

impl View for Body {
    type V = BodyView;

    open spec fn view(&self) -> BodyView {
        match self {
            Body::Empty => BodyView::Empty,
            Body::Json(fields) => BodyView::Json(fields_map(fields@)),
            Body::Form(fields) => BodyView::Form(fields_map(fields@)),
            Body::Multipart(form) => BodyView::Multipart(parts(form@)),
        }
    }
}

impl Body {
    /// Whether no key occurs twice among the fields of the body.
    pub open spec fn wf(&self) -> bool {
        match self {
            Body::Json(fields) => distinct_keys(fields@),
            Body::Form(fields) => distinct_keys(fields@),
            _ => true,
        }
    }
}

/// The body that an assembly makes: the multipart form where there is one;
/// else nothing where no field was given; else the fields, as a form in
/// form mode and as a JSON object otherwise.
pub open spec fn body_of(a: AssemblyView, is_form: bool) -> BodyView {
    match a.multipart {
        Some(form) => BodyView::Multipart(form),
        None => if a.data.dom().finite() && a.data.dom().len() == 0 {
            BodyView::Empty
        } else if is_form {
            BodyView::Form(a.data)
        } else {
            BodyView::Json(a.data)
        },
    }
}

/// The mapping of some fields is finite, and empty only where there are no
/// fields.
pub proof fn lemma_fields_map_len(fields: Seq<(String, BodyValue)>)
    ensures
        fields_map(fields).dom().finite(),
        fields_map(fields).dom().len() == 0 <==> fields.len() == 0,
    decreases fields.len(),
{
    if fields.len() > 0 {
        lemma_fields_map_len(fields.drop_last());
        let front = fields_map(fields.drop_last());
        let key = fields.last().0@;
        assert(fields_map(fields).dom() =~= front.dom().insert(key));
        if fields_map(fields).dom().len() == 0 {
            assert(fields_map(fields).dom().contains(key));
            assert(fields_map(fields).dom() =~= Set::<Seq<char>>::empty());
        }
    }
}

impl Assembly {
    /// The body that the assembly makes.
    pub fn into_body(self, is_form: bool) -> (body: Body)
        requires
            self.wf(),
        ensures
            body.wf(),
            body@ == body_of(self@, is_form),
    {
        proof {
            lemma_fields_map_len(self.data@);
        }
        match self.multipart {
            Some(form) => Body::Multipart(form),
            None => if self.data.len() == 0 {
                Body::Empty
            } else if is_form {
                Body::Form(self.data)
            } else {
                Body::Json(self.data)
            },
        }
    }
}

/// The method of a request.
#[derive(Debug, Clone, Copy, PartialEq, Eq, Structural)]
pub enum HttpMethod {
    Head,
    Get,
    Put,
    Post,
    Patch,
    Delete,
}

/// A request, ready to be sent.
#[derive(Debug, Clone, PartialEq, Eq)]
pub struct RequestDescriptor {
    pub method: HttpMethod,
    pub url: String,
    /// The headers, in the order in which they are to be added. A key may
    /// occur more than once.
    pub headers: Vec<(String, String)>,
    /// The query parameters, in order.
    pub query: Vec<(String, String)>,
    pub body: Body,
    /// User name and password for basic authentication.
    pub basic_auth: Option<(String, Password)>,
    /// The token for bearer authentication.
    pub bearer: Option<String>,
}

/// The mathematical value of a [`RequestDescriptor`].
pub struct RequestView {
    pub method: HttpMethod,
    pub url: Seq<char>,
    pub headers: Seq<(Seq<char>, Seq<char>)>,
    pub query: Seq<(Seq<char>, Seq<char>)>,
    pub body: BodyView,
    pub basic_auth: Option<(Seq<char>, PasswordView)>,
    pub bearer: Option<Seq<char>>,
}

impl View for RequestDescriptor {
    type V = RequestView;

    open spec fn view(&self) -> RequestView {
        RequestView {
            method: self.method,
            url: self.url@,
            headers: pairs(self.headers@),
            query: pairs(self.query@),
            body: self.body@,
            basic_auth: match self.basic_auth {
                Some(c) => Some((c.0@, c.1@)),
                None => None,
            },
            bearer: match self.bearer {
                Some(t) => Some(t@),
                None => None,
            },
        }
    }
}

/// The request to `url` that holds nothing yet.
pub open spec fn blank(method: HttpMethod, url: Seq<char>) -> RequestView {
    RequestView {
        method,
        url,
        headers: Seq::empty(),
        query: Seq::empty(),
        body: BodyView::Empty,
        basic_auth: None,
        bearer: None,
    }
}

impl RequestDescriptor {
    /// Whether no key occurs twice among the fields of the body.
    pub open spec fn wf(&self) -> bool {
        self.body.wf()
    }

    /// The request to `url` that holds nothing yet.
    pub fn new(method: HttpMethod, url: String) -> (r: RequestDescriptor)
        ensures
            r.wf(),
            r@ == blank(method, url@),
    {
        let r = RequestDescriptor {
            method,
            url,
            headers: Vec::new(),
            query: Vec::new(),
            body: Body::Empty,
            basic_auth: None,
            bearer: None,
        };
        assert(r@.headers =~= Seq::empty());
        assert(r@.query =~= Seq::empty());
        r
    }
}

} // verus!
