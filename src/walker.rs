use vstd::prelude::*;

use crate::config::PermConfig;
use crate::policy::{handle_path_chmod, make_mode_spec};

verus! {

/// What reading an entry's metadata told: whether it is a directory, and its mode.
#[derive(Clone, Copy, Debug, PartialEq, Eq)]
pub struct Meta {
    pub is_dir: bool,
    pub mode: u32,
}

/// Why an entry's metadata could not be read.
#[derive(Clone, Copy, Debug, PartialEq, Eq)]
pub enum MetaError {
    /// The entry is gone: an expected race, not a failure.
    NotFound,
    /// Any other failure (permission denied, I/O error).
    Other,
}

/// What enforcement decides for one entry once its metadata was asked for.
#[derive(Clone, Copy, Debug, PartialEq, Eq)]
pub enum Visit {
    /// The entry vanished; worth a debug diagnostic only.
    Vanished,
    /// The metadata could not be read; worth an error diagnostic.
    Unreadable,
    /// The entry was read: `change` is the mode to set, if any.
    Checked { is_dir: bool, from: u32, change: Option<u32> },
}

/// The decision for an entry, from its metadata and the configuration.
pub open spec fn visit_spec(meta: Result<Meta, MetaError>, config: PermConfig) -> Visit {
    match meta {
        Err(MetaError::NotFound) => Visit::Vanished,
        Err(MetaError::Other) => Visit::Unreadable,
        Ok(m) => {
            let to = make_mode_spec(m.mode, config.wanted(m.is_dir), config.exact);
            Visit::Checked {
                is_dir: m.is_dir,
                from: m.mode,
                change: if to != m.mode {
                    Some(to)
                } else {
                    None
                },
            }
        },
    }
}

/// Decides what to do with an entry: directories get the directory bits, every
/// other entry the file bits; no change is asked for when the mode already fits.
pub fn handle_path(meta: Result<Meta, MetaError>, config: &PermConfig) -> (r: Visit)
    ensures
        r == visit_spec(meta, *config),
{
    match meta {
        Err(MetaError::NotFound) => Visit::Vanished,
        Err(MetaError::Other) => Visit::Unreadable,
        Ok(m) => {
            let wanted = if m.is_dir {
                config.dir_perms
            } else {
                config.perms
            };
            let change = handle_path_chmod(m.mode, wanted, config.exact);
            Visit::Checked { is_dir: m.is_dir, from: m.mode, change }
        },
    }
}

/// An operation the walker asks its driver to perform on the filesystem.
#[derive(Debug, PartialEq, Eq)]
pub enum Request<P> {
    /// Read the metadata of this path and answer with `Reply::Meta`.
    ReadMeta(P),
    /// Set the mode of `path` from `from` to `to` and answer with
    /// `Reply::ModeSet`, handing back `path` and `descend`.
    SetMode { path: P, from: u32, to: u32, descend: bool },
    /// List this directory and answer with `Reply::Listing`.
    ListDir(P),
    /// Nothing is left to visit.
    Done,
}

/// The outcome of a request, handed back to the walker.
#[derive(Debug)]
pub enum Reply<P> {
    Meta(P, Result<Meta, MetaError>),
    ModeSet { path: P, ok: bool, descend: bool },
    /// The entries of a listed directory, each read or failed, or the failure to list it.
    Listing(Result<Vec<Result<P, ()>>, ()>),
}

/// The diagnostics that an outcome calls for.
#[derive(Clone, Copy, Debug, PartialEq, Eq)]
pub enum Note {
    Quiet,
    Debug,
    Info,
    /// This many error diagnostics.
    Errors(usize),
}

/// One move of the walker: what to record of the last outcome, and what to do next.
#[derive(Debug, PartialEq, Eq)]
pub struct Step<P> {
    pub note: Note,
    pub request: Request<P>,
}

/// The paths among listed entries that could be read, the last entry first.
pub open spec fn ok_entries_rev<P>(es: Seq<Result<P, ()>>) -> Seq<P>
    decreases es.len(),
{
    if es.len() == 0 {
        Seq::empty()
    } else {
        match es.last() {
            Ok(p) => seq![p] + ok_entries_rev(es.drop_last()),
            Err(_) => ok_entries_rev(es.drop_last()),
        }
    }
}

/// How many listed entries could not be read.
pub open spec fn failed_entries<P>(es: Seq<Result<P, ()>>) -> nat
    decreases es.len(),
{
    if es.len() == 0 {
        0
    } else {
        failed_entries(es.drop_last()) + if es.last() is Err {
            1nat
        } else {
            0nat
        }
    }
}

proof fn lemma_failed_entries_le<P>(es: Seq<Result<P, ()>>)
    ensures
        failed_entries(es) <= es.len(),
    decreases es.len(),
{
    if es.len() > 0 {
        lemma_failed_entries_le(es.drop_last());
    }
}

/// The next request when the paths in `pending` are still to visit, and what
/// is pending afterwards: the last pending path is visited next.
pub open spec fn next_spec<P>(pending: Seq<P>) -> (Seq<P>, Request<P>) {
    if pending.len() == 0 {
        (pending, Request::Done)
    } else {
        (pending.drop_last(), Request::ReadMeta(pending.last()))
    }
}

/// One transition of the walk: from the pending paths and an outcome, the
/// paths pending afterwards and the step taken.
pub open spec fn step_spec<P>(pending: Seq<P>, config: PermConfig, reply: Reply<P>) -> (
    Seq<P>,
    Step<P>,
) {
    let quiet = |note: Note, p: Seq<P>| (next_spec(p).0, Step { note, request: next_spec(p).1 });
    match reply {
        Reply::Meta(path, meta) => match visit_spec(meta, config) {
            Visit::Vanished => quiet(Note::Debug, pending),
            Visit::Unreadable => quiet(Note::Errors(1), pending),
            Visit::Checked { is_dir, from, change } => match change {
                Some(to) => (
                    pending,
                    Step {
                        note: Note::Quiet,
                        request: Request::SetMode { path, from, to, descend: is_dir },
                    },
                ),
                None => if is_dir {
                    (pending, Step { note: Note::Debug, request: Request::ListDir(path) })
                } else {
                    quiet(Note::Debug, pending)
                },
            },
        },
        Reply::ModeSet { path, ok, descend } => {
            let note = if ok {
                Note::Info
            } else {
                Note::Errors(1)
            };
            if descend {
                (pending, Step { note, request: Request::ListDir(path) })
            } else {
                quiet(note, pending)
            }
        },
        Reply::Listing(Err(_)) => quiet(Note::Errors(1), pending),
        Reply::Listing(Ok(es)) => {
            let n = failed_entries(es@);
            let note = if n == 0 {
                Note::Quiet
            } else {
                Note::Errors(n as usize)
            };
            quiet(note, pending + ok_entries_rev(es@))
        },
    }
}

/// Enforces a configuration on every entry under some roots, one filesystem
/// operation at a time: its driver performs each request and hands back the
/// outcome. Per-entry failures are reported and never end the walk.
pub struct Walker<P> {
    config: PermConfig,
    pending: Vec<P>,
}

impl<P> Walker<P> {
    /// The paths still to visit; the last one is visited first.
    pub closed spec fn pending(&self) -> Seq<P> {
        self.pending@
    }

    pub closed spec fn config(&self) -> PermConfig {
        self.config
    }

    /// A walk over the trees under `roots`.
    pub fn new(roots: Vec<P>, config: PermConfig) -> (r: Walker<P>)
        ensures
            r.pending() == roots@,
            r.config() == config,
    {
        Walker { config, pending: roots }
    }

    /// The next path to visit, or `Done`.
    pub fn next(&mut self) -> (r: Request<P>)
        ensures
            (final(self).pending(), r) == next_spec(old(self).pending()),
            final(self).config() == old(self).config(),
    {
        match self.pending.pop() {
            Some(p) => Request::ReadMeta(p),
            None => Request::Done,
        }
    }

    /// Takes the outcome of the last request and gives the next one.
    pub fn step(&mut self, reply: Reply<P>) -> (r: Step<P>)
        ensures
            (final(self).pending(), r) == step_spec(old(self).pending(), old(self).config(), reply),
            final(self).config() == old(self).config(),
    {
        match reply {
            Reply::Meta(path, meta) => match handle_path(meta, &self.config) {
                Visit::Vanished => Step { note: Note::Debug, request: self.next() },
                Visit::Unreadable => Step { note: Note::Errors(1), request: self.next() },
                Visit::Checked { is_dir, from, change } => match change {
                    Some(to) => Step {
                        note: Note::Quiet,
                        request: Request::SetMode { path, from, to, descend: is_dir },
                    },
                    None => if is_dir {
                        Step { note: Note::Debug, request: Request::ListDir(path) }
                    } else {
                        Step { note: Note::Debug, request: self.next() }
                    },
                },
            },
            Reply::ModeSet { path, ok, descend } => {
                let note = if ok {
                    Note::Info
                } else {
                    Note::Errors(1)
                };
                if descend {
                    Step { note, request: Request::ListDir(path) }
                } else {
                    Step { note, request: self.next() }
                }
            },
            Reply::Listing(Err(_)) => Step { note: Note::Errors(1), request: self.next() },
            Reply::Listing(Ok(es)) => {
                let n = self.push_entries(es);
                let note = if n == 0 {
                    Note::Quiet
                } else {
                    Note::Errors(n)
                };
                Step { note, request: self.next() }
            },
        }
    }

    /// Queues the entries that could be read, and counts those that could not.
    fn push_entries(&mut self, es: Vec<Result<P, ()>>) -> (n: usize)
        ensures
            final(self).pending() == old(self).pending() + ok_entries_rev(es@),
            n == failed_entries(es@),
            final(self).config() == old(self).config(),
    {
        let ghost orig = es@;
        let ghost start = self.pending@;
        let mut es = es;
        let total: usize = es.len();
        let mut n: usize = 0;
        proof {
            lemma_failed_entries_le(orig);
        }
        while es.len() > 0
            invariant
                start + ok_entries_rev(orig) == self.pending@ + ok_entries_rev(es@),
                n + failed_entries(es@) == failed_entries(orig),
                failed_entries(orig) <= orig.len(),
                orig.len() == total,
                self.config == old(self).config,
            decreases es.len(),
        {
            let ghost before = es@;
            match es.pop() {
                Some(Ok(p)) => {
                    self.pending.push(p);
                },
                Some(Err(_)) => {
                    n = n + 1;
                },
                None => {},
            }
            assert(before.drop_last() =~= es@);
        }
        assert(self.pending@ + ok_entries_rev(es@) =~= self.pending@);
        n
    }
}

/// An entry whose mode already is the one enforcement computes gets no mode
/// change; any other readable entry gets a change to exactly that mode.
pub proof fn lemma_set_mode_only_on_change<P>(
    pending: Seq<P>,
    config: PermConfig,
    path: P,
    meta: Meta,
)
    ensures
        ({
            let to = make_mode_spec(meta.mode, config.wanted(meta.is_dir), config.exact);
            let request = step_spec(pending, config, Reply::Meta(path, Ok(meta))).1.request;
            &&& to == meta.mode ==> !(request is SetMode)
            &&& to != meta.mode ==> request == Request::SetMode {
                path,
                from: meta.mode,
                to,
                descend: meta.is_dir,
            }
        }),
{
}

/// A failure on one path never ends the walk: whether its metadata, the mode
/// change of a non-directory or a listing failed, the walk goes on with every
/// path still pending, and the failure is recorded (at error severity unless
/// the path simply vanished). A directory whose mode change failed is still
/// listed, as `step_spec` states.
pub proof fn lemma_failure_continues<P>(pending: Seq<P>, config: PermConfig, reply: Reply<P>)
    requires
        match reply {
            Reply::Meta(_, meta) => meta is Err,
            Reply::ModeSet { ok, descend, .. } => !ok && !descend,
            Reply::Listing(listing) => listing is Err,
        },
    ensures
        step_spec(pending, config, reply).0 == next_spec(pending).0,
        step_spec(pending, config, reply).1.request == next_spec(pending).1,
        step_spec(pending, config, reply).1.note == if reply == Reply::Meta(
            reply->Meta_0,
            Err(MetaError::NotFound),
        ) {
            Note::Debug
        } else {
            Note::Errors(1)
        },
{
}

} // verus!
