//! The text engine (a llama.cpp server): its status, the decisions of
//! starting, watching and stopping it, and the arguments it runs with.
use vstd::prelude::*;
use crate::errors::{ENGINE_MISSING, ENGINE_PREFIX, LOADING, LOAD_TIMEOUT, MODEL_MISSING, NO_MODEL};
use crate::reply::string_views;
use crate::text::{decimal, decimal_chars, string_of};

verus! {

/// The state of an engine.
#[derive(Clone, Debug, PartialEq, Eq, Default)]
pub enum Status {
    #[default]
    Stopped,
    Loading,
    Ready,
    Error(String),
}

pub const STOPPED_TEXT: &'static str = "stopped";

pub const LOADING_TEXT: &'static str = "loading";

pub const READY_TEXT: &'static str = "ready";

pub const ERROR_TEXT_PREFIX: &'static str = "error:";

/// How the front end names a status.
pub open spec fn status_text(s: Status) -> Seq<char> {
    match s {
        Status::Stopped => STOPPED_TEXT@,
        Status::Loading => LOADING_TEXT@,
        Status::Ready => READY_TEXT@,
        Status::Error(e) => ERROR_TEXT_PREFIX@ + e@,
    }
}

impl Status {
    /// The status as the front end names it: `stopped`, `loading`, `ready`
    /// or `error:` and the message.
    pub fn status_string(&self) -> (r: String)
        ensures
            r@ == status_text(*self),
    {
        match self {
            Status::Stopped => String::from_str(STOPPED_TEXT),
            Status::Loading => String::from_str(LOADING_TEXT),
            Status::Ready => String::from_str(READY_TEXT),
            Status::Error(e) => {
                let mut r = String::from_str(ERROR_TEXT_PREFIX);
                r.append(e.as_str());
                r
            },
        }
    }
}

/// The port to ask when the engine is ready; otherwise why not.
pub open spec fn ensure_ready_spec(status: Status, port: u16) -> Result<u16, Seq<char>> {
    match status {
        Status::Ready => Ok(port),
        Status::Loading => Err(LOADING@),
        Status::Stopped => Err(NO_MODEL@),
        Status::Error(e) => Err(ENGINE_PREFIX@ + e@),
    }
}

pub open spec fn port_result_view(r: Result<u16, String>) -> Result<u16, Seq<char>> {
    match r {
        Ok(p) => Ok(p),
        Err(e) => Err(e@),
    }
}

/// Checks that the engine is ready and gives its port.
pub fn ensure_ready(status: &Status, port: u16) -> (r: Result<u16, String>)
    ensures
        port_result_view(r) == ensure_ready_spec(*status, port),
{
    match status {
        Status::Ready => Ok(port),
        Status::Loading => Err(String::from_str(LOADING)),
        Status::Stopped => Err(String::from_str(NO_MODEL)),
        Status::Error(e) => {
            let mut m = String::from_str(ENGINE_PREFIX);
            m.append(e.as_str());
            Err(m)
        },
    }
}

/// The text engine as the application tracks it. The process itself is
/// held by the application; `generation` grows with every stop and start,
/// so that a loader that was overtaken can tell.
pub struct LlamaEngine {
    pub port: u16,
    pub status: Status,
    pub generation: u64,
}

/// What a loader does after looking at the engine.
#[derive(Clone, Copy, Debug, PartialEq, Eq)]
pub enum LoadStep {
    /// A newer stop or start took over: leave everything as it is.
    Superseded,
    /// The process ended while loading: the status says so.
    Exited,
    /// The engine answered its health check: it is ready.
    Ready,
    /// Wait and look again.
    Wait,
}

pub const EXITED_PREFIX: &'static str = "exited: ";

impl LlamaEngine {
    pub fn new() -> (e: LlamaEngine)
        ensures
            e.port == 0,
            e.status == Status::Stopped,
            e.generation == 0,
    {
        LlamaEngine { port: 0, status: Status::Stopped, generation: 0 }
    }

    /// Stops the engine: a new generation, status `Stopped`.
    pub fn kill(&mut self)
        requires
            old(self).generation < u64::MAX,
        ensures
            final(self).generation == old(self).generation + 1,
            final(self).status == Status::Stopped,
            final(self).port == old(self).port,
    {
        self.generation = self.generation + 1;
        self.status = Status::Stopped;
    }

    /// Records an error.
    pub fn set_error(&mut self, msg: &str)
        ensures
            final(self).status is Error && final(self).status->Error_0@ == msg@,
            final(self).generation == old(self).generation,
            final(self).port == old(self).port,
    {
        self.status = Status::Error(String::from_str(msg));
    }

    /// Before a start, after the engine was stopped: with no model chosen
    /// the engine stays as it is and `NO_MODEL` comes back; a model file
    /// that is not on disk, or no engine program, is recorded as the
    /// engine's error (`model_missing`, `engine_missing`) and comes back;
    /// otherwise nothing changes and the start goes on.
    pub fn prepare_start(&mut self, model_chosen: bool, model_present: bool, exe_found: bool) -> (r:
        Option<&'static str>)
        ensures
            final(self).generation == old(self).generation,
            final(self).port == old(self).port,
            !model_chosen ==> r == Some(NO_MODEL) && final(self).status == old(self).status,
            model_chosen && !model_present ==> r == Some(MODEL_MISSING) && final(self).status
                is Error && final(self).status->Error_0@ == MODEL_MISSING@,
            model_chosen && model_present && !exe_found ==> r == Some(ENGINE_MISSING)
                && final(self).status is Error && final(self).status->Error_0@
                == ENGINE_MISSING@,
            model_chosen && model_present && exe_found ==> r is None && final(self).status
                == old(self).status,
    {
        if !model_chosen {
            Some(NO_MODEL)
        } else if !model_present {
            self.set_error(MODEL_MISSING);
            Some(MODEL_MISSING)
        } else if !exe_found {
            self.set_error(ENGINE_MISSING);
            Some(ENGINE_MISSING)
        } else {
            None
        }
    }

    /// The process was started on `port`: the engine is loading, in the
    /// current generation, which the loader keeps.
    pub fn started(&mut self, port: u16) -> (my_gen: u64)
        ensures
            final(self).port == port,
            final(self).status == Status::Loading,
            final(self).generation == old(self).generation,
            my_gen == old(self).generation,
    {
        self.port = port;
        self.status = Status::Loading;
        self.generation
    }

    /// A loader of generation `my_gen` looks at the engine; `exit` is the
    /// exit status of the process if it has ended.
    pub fn check_alive(&mut self, my_gen: u64, exit: Option<String>) -> (r: LoadStep)
        ensures
            old(self).generation != my_gen ==> r == LoadStep::Superseded && *final(self) == *old(self),
            old(self).generation == my_gen && exit is Some ==> r == LoadStep::Exited && final(self).status is Error && final(self).status->Error_0@ == EXITED_PREFIX@ + exit->0@,
            old(self).generation == my_gen && exit is None ==> r == LoadStep::Wait && *final(self) == *old(self),
            final(self).generation == old(self).generation,
            final(self).port == old(self).port,
    {
        if self.generation != my_gen {
            return LoadStep::Superseded;
        }
        match exit {
            Some(st) => {
                let mut m = String::from_str(EXITED_PREFIX);
                m.append(st.as_str());
                self.status = Status::Error(m);
                LoadStep::Exited
            },
            None => LoadStep::Wait,
        }
    }

    /// The health check answered (`healthy`) or not.
    pub fn health_checked(&mut self, my_gen: u64, healthy: bool) -> (r: LoadStep)
        ensures
            !healthy ==> r == LoadStep::Wait && *final(self) == *old(self),
            healthy && old(self).generation != my_gen ==> r == LoadStep::Superseded && *final(self) == *old(self),
            healthy && old(self).generation == my_gen ==> r == LoadStep::Ready && final(self).status == Status::Ready,
            final(self).generation == old(self).generation,
            final(self).port == old(self).port,
    {
        if !healthy {
            return LoadStep::Wait;
        }
        if self.generation != my_gen {
            return LoadStep::Superseded;
        }
        self.status = Status::Ready;
        LoadStep::Ready
    }

    /// The engine did not become ready in time.
    pub fn timed_out(&mut self)
        ensures
            final(self).status is Error && final(self).status->Error_0@ == LOAD_TIMEOUT@,
            final(self).generation == old(self).generation,
            final(self).port == old(self).port,
    {
        self.status = Status::Error(String::from_str(LOAD_TIMEOUT));
    }

    /// The status as the front end names it.
    pub fn status_string(&self) -> (r: String)
        ensures
            r@ == status_text(self.status),
    {
        self.status.status_string()
    }
}

pub const HOST: &'static str = "127.0.0.1";

pub const ARG_MODEL: &'static str = "-m";

pub const ARG_HOST: &'static str = "--host";

pub const ARG_PORT: &'static str = "--port";

pub const ARG_CONTEXT: &'static str = "-c";

pub const CONTEXT_SIZE: &'static str = "4096";

pub const ARG_GPU_LAYERS: &'static str = "-ngl";

pub const GPU_LAYERS: &'static str = "99";

pub const ARG_JINJA: &'static str = "--jinja";

pub const ARG_NO_WEBUI: &'static str = "--no-webui";

/// The arguments of the text engine: the model, the local address and
/// port, a 4096-token context, all layers on the GPU, chat templates, no
/// web page.
pub open spec fn server_args_spec(model_path: Seq<char>, port: u16) -> Seq<Seq<char>> {
    seq![
        ARG_MODEL@,
        model_path,
        ARG_HOST@,
        HOST@,
        ARG_PORT@,
        decimal(port as nat),
        ARG_CONTEXT@,
        CONTEXT_SIZE@,
        ARG_GPU_LAYERS@,
        GPU_LAYERS@,
        ARG_JINJA@,
        ARG_NO_WEBUI@,
    ]
}

/// The command-line arguments of the text engine.
pub fn server_args(model_path: &str, port: u16) -> (r: Vec<String>)
    ensures
        string_views(r@) == server_args_spec(model_path@, port),
{
    let mut r: Vec<String> = Vec::new();
    r.push(String::from_str(ARG_MODEL));
    r.push(String::from_str(model_path));
    r.push(String::from_str(ARG_HOST));
    r.push(String::from_str(HOST));
    r.push(String::from_str(ARG_PORT));
    r.push(string_of(&decimal_chars(port as u128)));
    r.push(String::from_str(ARG_CONTEXT));
    r.push(String::from_str(CONTEXT_SIZE));
    r.push(String::from_str(ARG_GPU_LAYERS));
    r.push(String::from_str(GPU_LAYERS));
    r.push(String::from_str(ARG_JINJA));
    r.push(String::from_str(ARG_NO_WEBUI));
    assert(string_views(r@) =~= server_args_spec(model_path@, port));
    r
}

} // verus!
