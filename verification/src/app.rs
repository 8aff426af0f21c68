//! The options of one invocation, and what follows from them.

use vstd::prelude::*;
use crate::errors::Error;
use crate::param::{Parameter, ParameterView, Separator};
use crate::request::{param_views, HttpMethod};
use crate::session::{make_safe_pathname, safe_pathname};

verus! {

/// A path in the file system. Opaque here: paths are only carried from the
/// command line to where files are opened.
#[verifier::external_type_specification]
#[verifier::external_body]
pub struct ExPathBuf(std::path::PathBuf);

/// The target of a request that names its method.
#[derive(Debug)]
pub struct MethodData {
    /// The URL to request.
    pub url: String,
    /// The header, data and query parameters to add to the request.
    pub parameters: Vec<Parameter>,
}

/// The method subcommands.
#[derive(Debug)]
pub enum Method {
    HEAD(MethodData),
    GET(MethodData),
    PUT(MethodData),
    POST(MethodData),
    PATCH(MethodData),
    DELETE(MethodData),
}

/// What the command line asks for.
#[derive(Debug)]
pub struct App {
    /// Quiet mode: overrides `verbose`.
    pub quiet: bool,
    /// How much to log, from 0 (nothing) upwards.
    pub verbose: u8,
    /// Form mode: the body is a form, not a JSON object.
    pub form: bool,
    /// Credentials for basic authentication, `username:password`.
    pub auth: Option<String>,
    /// Token for bearer authentication.
    pub token: Option<String>,
    /// The name of the session to use.
    pub session: Option<String>,
    /// Where sessions are stored.
    pub session_dir: Option<std::path::PathBuf>,
    /// Use the session, but do not change what is stored.
    pub read_only: bool,
    /// Use `https` where the URL names no scheme.
    pub secure: bool,
    /// The configuration file.
    pub config: Option<std::path::PathBuf>,
    /// The method subcommand, with its URL and parameters.
    pub cmd: Option<Method>,
    /// The URL, where no method subcommand is given.
    pub url: Option<String>,
    /// The parameters, where no method subcommand is given.
    pub parameters: Vec<Parameter>,
}

/// What a configuration file may set.
#[derive(Debug, Clone, Default)]
pub struct Config {
    pub verbose: Option<u8>,
    pub form: Option<bool>,
    pub auth: Option<String>,
    pub token: Option<String>,
    pub secure: Option<bool>,
}

impl Method {
    /// The URL and parameters of the subcommand.
    pub fn data(&self) -> (r: &MethodData)
        ensures
            *r == self.spec_data(),
    {
        match self {
            Method::HEAD(x) => x,
            Method::GET(x) => x,
            Method::POST(x) => x,
            Method::PUT(x) => x,
            Method::PATCH(x) => x,
            Method::DELETE(x) => x,
        }
    }

    /// The URL and parameters of the subcommand.
    pub open spec fn spec_data(&self) -> MethodData {
        match self {
            Method::HEAD(x) => *x,
            Method::GET(x) => *x,
            Method::POST(x) => *x,
            Method::PUT(x) => *x,
            Method::PATCH(x) => *x,
            Method::DELETE(x) => *x,
        }
    }

    /// The method that the subcommand names.
    pub open spec fn spec_http(&self) -> HttpMethod {
        match self {
            Method::HEAD(_) => HttpMethod::Head,
            Method::GET(_) => HttpMethod::Get,
            Method::PUT(_) => HttpMethod::Put,
            Method::PATCH(_) => HttpMethod::Patch,
            Method::POST(_) => HttpMethod::Post,
            Method::DELETE(_) => HttpMethod::Delete,
        }
    }
}

impl From<&Method> for HttpMethod {
    fn from(m: &Method) -> (r: HttpMethod) {
        match m {
            Method::HEAD(_) => HttpMethod::Head,
            Method::GET(_) => HttpMethod::Get,
            Method::PUT(_) => HttpMethod::Put,
            Method::PATCH(_) => HttpMethod::Patch,
            Method::POST(_) => HttpMethod::Post,
            Method::DELETE(_) => HttpMethod::Delete,
        }
    }
}

impl vstd::std_specs::convert::FromSpecImpl<&Method> for HttpMethod {
    open spec fn obeys_from_spec() -> bool {
        true
    }

    open spec fn from_spec(m: &Method) -> HttpMethod {
        m.spec_http()
    }
}

/// The log level that `verbose` stands for; none in quiet mode.
pub open spec fn log_level_of(quiet: bool, verbose: u8) -> Option<Seq<char>> {
    if quiet || verbose == 0 {
        None
    } else if verbose == 1 {
        Some("error"@)
    } else if verbose == 2 {
        Some("warn"@)
    } else if verbose == 3 {
        Some("info"@)
    } else if verbose == 4 {
        Some("debug"@)
    } else {
        Some("trace"@)
    }
}

/// Whether one of the parameters goes into the body.
pub open spec fn has_data(params: Seq<ParameterView>) -> bool {
    exists|i: int|
        0 <= i < params.len() && (#[trigger] params[i]).kind != Separator::Colon && params[i].kind
            != Separator::EqualEqual
}

impl App {
    /// Checks that there is something to request: a method subcommand or
    /// a URL.
    pub fn validate(&mut self) -> (r: Result<(), Error>)
        ensures
            *final(self) == *old(self),
            (old(self).cmd is None && old(self).url is None) ==> r == Err::<(), Error>(
                Error::MissingUrlAndCommand,
            ),
            (old(self).cmd is Some || old(self).url is Some) ==> r is Ok,
    {
        if self.cmd.is_none() && self.url.is_none() {
            return Err(Error::MissingUrlAndCommand);
        }
        Ok(())
    }

    /// Takes from the configuration file what the command line left open:
    /// the verbosity where it is 0, form mode and the secure default where
    /// they are off, the credentials and the token where none were given.
    pub fn process_config_file(&mut self, config: Option<Config>)
        ensures
            final(self).quiet == old(self).quiet,
            final(self).session == old(self).session,
            final(self).session_dir == old(self).session_dir,
            final(self).read_only == old(self).read_only,
            final(self).config == old(self).config,
            final(self).cmd == old(self).cmd,
            final(self).url == old(self).url,
            final(self).parameters == old(self).parameters,
            match config {
                Some(c) => {
                    &&& final(self).verbose == if old(self).verbose == 0 && c.verbose is Some {
                        c.verbose->Some_0
                    } else {
                        old(self).verbose
                    }
                    &&& final(self).form == if !old(self).form && c.form is Some {
                        c.form->Some_0
                    } else {
                        old(self).form
                    }
                    &&& final(self).secure == if !old(self).secure && c.secure is Some {
                        c.secure->Some_0
                    } else {
                        old(self).secure
                    }
                    &&& final(self).auth == if old(self).auth is None {
                        c.auth
                    } else {
                        old(self).auth
                    }
                    &&& final(self).token == if old(self).token is None {
                        c.token
                    } else {
                        old(self).token
                    }
                },
                None => *final(self) == *old(self),
            },
    {
        if let Some(config) = config {
            if self.verbose == 0 {
                if let Some(v) = config.verbose {
                    self.verbose = v;
                }
            }
            if !self.form {
                if let Some(f) = config.form {
                    self.form = f;
                }
            }
            if !self.secure {
                if let Some(s) = config.secure {
                    self.secure = s;
                }
            }
            if self.auth.is_none() {
                self.auth = config.auth;
            }
            if self.token.is_none() {
                self.token = config.token;
            }
        }
    }

    /// The log level to run with; none in quiet mode or at verbosity 0.
    pub fn log_level(&self) -> (r: Option<&'static str>)
        ensures
            match log_level_of(self.quiet, self.verbose) {
                Some(level) => r matches Some(s) && s@ == level,
                None => r is None,
            },
    {
        if self.quiet || self.verbose == 0 {
            return None;
        }
        match self.verbose {
            1 => Some("error"),
            2 => Some("warn"),
            3 => Some("info"),
            4 => Some("debug"),
            _ => Some("trace"),
        }
    }

    /// The URL that the request goes to: the one given alone, or else the
    /// one of the method subcommand.
    pub open spec fn target(&self) -> Seq<char> {
        match self.url {
            Some(url) => url@,
            None => match self.cmd {
                Some(cmd) => cmd.spec_data().url@,
                None => Seq::empty(),
            },
        }
    }
}

/// The name under which the sessions for this invocation's host are kept:
/// the URL, made safe as a file name.
pub fn host(app: &App) -> (name: String)
    requires
        app.url is Some || app.cmd is Some,
    ensures
        name@ == safe_pathname(app.target()),
{
    match &app.url {
        Some(url) => make_safe_pathname(url.as_str()),
        None => match &app.cmd {
            Some(cmd) => make_safe_pathname(cmd.data().url.as_str()),
            None => String::new(),
        },
    }
}

/// The method of a request that names none: `POST` where a parameter goes
/// into the body, else `GET`.
pub fn default_method(parameters: &Vec<Parameter>) -> (m: HttpMethod)
    ensures
        m == if has_data(param_views(parameters@)) {
            HttpMethod::Post
        } else {
            HttpMethod::Get
        },
{
    let n: usize = parameters.len();
    let mut i: usize = 0;
    while i < n
        invariant
            n == parameters@.len(),
            i <= n,
            forall|k: int|
                0 <= k < i ==> !((#[trigger] param_views(parameters@)[k]).kind
                    != Separator::Colon && param_views(parameters@)[k].kind
                    != Separator::EqualEqual),
        decreases n - i,
    {
        assert(param_views(parameters@)[i as int] == parameters@[i as int]@);
        if parameters[i].is_data() {
            return HttpMethod::Post;
        }
        i = i + 1;
    }
    HttpMethod::Get
}

} // verus!
