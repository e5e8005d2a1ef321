//! What a step reports, and the state that a run carries: the user's data
//! and the run's metadata (its id, its task and the path of steps taken).
use std::collections::HashMap;
use vstd::prelude::*;
use vstd::string::*;
use crate::text::{decimal, joined, lemma_joined_push, push_decimal};

verus! {

/// A JSON value of the user's data.
#[verifier::external_type_specification]
#[verifier::external_body]
pub struct ExJsonValue(serde_json::Value);

/// What a step reports when it ends.
#[derive(Debug)]
pub enum Code {
    /// The step succeeded: the flow goes on along the step's first edge.
    Success,
    /// The step failed: the flow goes on along the edge with this index.
    Failure(usize, Option<String>),
    /// The step asks to be run again.
    Retry(Option<String>),
    /// The step ends the run.
    Cancel(Option<String>),
}

/// The metadata of a run.
#[derive(Debug)]
pub struct Meta {
    pub id: u64,
    pub task: String,
    /// Each step taken, in order, with the number of times it was retried.
    pub path: Vec<(String, u32)>,
}

/// The abstract value of a [`Meta`].
pub struct MetaView {
    pub id: u64,
    pub task: Seq<char>,
    pub path: Seq<(Seq<char>, u32)>,
}

impl View for Meta {
    type V = MetaView;

    open spec fn view(&self) -> MetaView {
        MetaView { id: self.id, task: self.task@, path: self.path.deep_view() }
    }
}

/// How one entry of the path reads: the step's name, followed by `@` and
/// its retry count when it was retried.
pub open spec fn entry_text(entry: (Seq<char>, u32)) -> Seq<char> {
    if entry.1 > 0 {
        entry.0 + seq!['@'] + decimal(entry.1 as nat)
    } else {
        entry.0
    }
}

/// The path as text: its entries separated by ` -> `.
pub open spec fn path_text(path: Seq<(Seq<char>, u32)>) -> Seq<char> {
    joined(Seq::new(path.len(), |i: int| entry_text(path[i])), seq![' ', '-', '>', ' '])
}

/// The metadata as text: `task#id: path`.
pub open spec fn meta_text(m: MetaView) -> Seq<char> {
    m.task + seq!['#'] + decimal(m.id as nat) + seq![':', ' '] + path_text(m.path)
}

impl Meta {
    /// The metadata of a run that has not started: id 0, task
    /// `unspecified`, no steps.
    pub fn new() -> (res: Meta)
        ensures
            res@.id == 0,
            res@.task == "unspecified"@,
            res@.path == Seq::<(Seq<char>, u32)>::empty(),
    {
        let res = Meta { id: 0, task: String::from_str("unspecified"), path: Vec::new() };
        assert(res@.path =~= Seq::<(Seq<char>, u32)>::empty());
        res
    }

    /// The metadata as text, `task#id: a -> b@2 -> c`, where `@2` tells that
    /// step `b` was retried twice.
    pub fn summary(&self) -> (res: String)
        ensures
            res@ == meta_text(self@),
    {
        let mut out = self.task.clone();
        out.append("#");
        push_decimal(&mut out, self.id);
        out.append(": ");
        proof {
            reveal_strlit("#");
            reveal_strlit(": ");
            reveal_strlit(" -> ");
            reveal_strlit("@");
        }
        let ghost head = out@;
        let ghost path = self@.path;
        let ghost texts = Seq::new(path.len(), |i: int| entry_text(path[i]));
        let mut i: usize = 0;
        while i < self.path.len()
            invariant
                i <= self.path@.len(),
                path == self@.path,
                path.len() == self.path@.len(),
                texts == Seq::new(path.len(), |k: int| entry_text(path[k])),
                out@ == head + joined(texts.take(i as int), seq![' ', '-', '>', ' ']),
            decreases self.path@.len() - i,
        {
            let ghost before = out@;
            proof {
                reveal_strlit(" -> ");
                reveal_strlit("@");
            }
            if i > 0 {
                out.append(" -> ");
            }
            let entry = &self.path[i];
            out.append(entry.0.as_str());
            if entry.1 > 0 {
                out.append("@");
                push_decimal(&mut out, entry.1 as u64);
            }
            proof {
                assert(path[i as int] == (entry.0@, entry.1));
                assert(texts.take(i + 1) =~= texts.take(i as int).push(texts[i as int]));
                lemma_joined_push(texts.take(i as int), seq![' ', '-', '>', ' '], texts[i as int]);
                if i > 0 {
                    assert(out@ =~= before + seq![' ', '-', '>', ' '] + texts[i as int]);
                } else {
                    assert(out@ =~= before + texts[i as int]);
                }
            }
            i = i + 1;
        }
        proof {
            assert(texts.take(path.len() as int) =~= texts);
            assert(out@ =~= meta_text(self@));
        }
        out
    }
}

/// The state of one run: the user's data, which the steps read and change,
/// and the run's metadata.
pub struct State {
    pub data: HashMap<String, serde_json::Value>,
    meta: Meta,
}

impl State {
    /// The user's data held by the state.
    pub closed spec fn stored_data(&self) -> HashMap<String, serde_json::Value> {
        self.data
    }

    /// The metadata of the run.
    pub closed spec fn meta_view(&self) -> MetaView {
        self.meta@
    }

    /// A fresh state around `data`, with the metadata of [`Meta::new`].
    pub fn new(data: HashMap<String, serde_json::Value>) -> (res: State)
        ensures
            res.stored_data() == data,
            res.meta_view().id == 0,
            res.meta_view().task == "unspecified"@,
            res.meta_view().path == Seq::<(Seq<char>, u32)>::empty(),
    {
        State { data, meta: Meta::new() }
    }

    /// The metadata of the run.
    pub fn meta(&self) -> (res: &Meta)
        ensures
            res@ == self.meta_view(),
    {
        &self.meta
    }

    /// The metadata as text, as [`Meta::summary`] writes it.
    pub fn summary(&self) -> (res: String)
        ensures
            res@ == meta_text(self.meta_view()),
    {
        self.meta.summary()
    }

    /// Marks the state as belonging to run `id` of task `task`; the path and
    /// the data stay as they are.
    pub fn begin_run(&mut self, id: u64, task: &str)
        ensures
            final(self).meta_view() == (MetaView { id, task: task@, path: old(self).meta_view().path }),
            final(self).stored_data() == old(self).stored_data(),
    {
        self.meta.id = id;
        self.meta.task = String::from_str(task);
    }

    /// Appends step `name` to the path, not yet retried.
    pub fn record_step(&mut self, name: &String)
        ensures
            final(self).meta_view() == (MetaView {
                path: old(self).meta_view().path.push((name@, 0u32)),
                ..old(self).meta_view()
            }),
            final(self).stored_data() == old(self).stored_data(),
    {
        self.meta.path.push((name.clone(), 0));
        assert(self.meta.path.deep_view() =~= old(self).meta.path.deep_view().push((name@, 0u32)));
    }

    /// The retry count of the last step of the path.
    pub fn last_retries(&self) -> (res: u32)
        requires
            self.meta_view().path.len() > 0,
        ensures
            res == self.meta_view().path.last().1,
    {
        self.meta.path[self.meta.path.len() - 1].1
    }

    /// Sets the retry count of the last step of the path to `count`.
    pub fn set_last_retries(&mut self, count: u32)
        requires
            old(self).meta_view().path.len() > 0,
        ensures
            final(self).meta_view() == (MetaView {
                path: old(self).meta_view().path.update(
                    old(self).meta_view().path.len() - 1,
                    (old(self).meta_view().path.last().0, count),
                ),
                ..old(self).meta_view()
            }),
            final(self).stored_data() == old(self).stored_data(),
    {
        let last = self.meta.path.len() - 1;
        let name = self.meta.path[last].0.clone();
        self.meta.path.set(last, (name, count));
        assert(self.meta.path.deep_view() =~= old(self).meta.path.deep_view().update(
            last as int,
            (old(self).meta.path.deep_view().last().0, count),
        ));
    }
}

} // verus!
