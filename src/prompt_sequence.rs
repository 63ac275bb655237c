//! A scripted sequence of prompts, run one step at a time.
use vstd::prelude::*;
use crate::json::decimal;
use crate::text::{trim_text, trimmed, join_path, path_parent, parent_path, is_absolute_path, absolute_path, joined_path};
use crate::hooks::copy_opt;

verus! {

/// One input item of a user turn.
pub enum UserInput {
    Text { text: String },
    LocalImage { path: String },
}

/// Whether `u` is the local image at `p`.
pub open spec fn is_image(u: UserInput, p: Seq<char>) -> bool {
    u matches UserInput::LocalImage { path } && path@ == p
}

/// A step as the sequence file writes it.
pub struct PromptSequenceStepToml {
    pub prompt: String,
    pub name: Option<String>,
    pub attachments: Option<Vec<String>>,
}

/// A step ready to run: its attachments resolved against the sequence
/// file's directory.
pub struct PromptSequenceStep {
    pub prompt: String,
    pub name: Option<String>,
    pub attachments: Option<Vec<String>>,
}

/// What the next step of the sequence submits.
pub struct PromptSequenceEntry {
    pub items: Vec<UserInput>,
    pub description: String,
    pub index: usize,
    pub total: usize,
}

/// An attachment path as a step uses it: absolute as it is, relative
/// under `base`.
pub open spec fn resolved(base: Seq<char>, p: Seq<char>) -> Seq<char> {
    if absolute_path(p) { p } else { joined_path(base, p) }
}

/// Whether `s` is the step `t` with its attachments resolved under `base`.
pub open spec fn step_from(t: PromptSequenceStepToml, s: PromptSequenceStep, base: Seq<char>) -> bool {
    &&& s.prompt == t.prompt
    &&& s.name == t.name
    &&& match (t.attachments, s.attachments) {
        (None, None) => true,
        (Some(a), Some(b)) => b@.len() == a@.len()
            && forall|i: int| 0 <= i < a@.len() ==> #[trigger] b@[i]@ == resolved(base, a@[i]@),
        _ => false,
    }
}

impl PromptSequenceStep {
    /// Checks a step and resolves its attachments against `base_dir`; a step
    /// whose prompt is blank is refused.
    pub fn from_toml(toml: PromptSequenceStepToml, base_dir: &str) -> (r: Result<PromptSequenceStep, String>)
        ensures
            r is Err <==> trimmed(toml.prompt@).len() == 0,
            r matches Err(m) ==> m@ == "prompt-sequence step is missing a prompt"@,
            r matches Ok(s) ==> step_from(toml, s, base_dir@),
    {
        if trim_text(toml.prompt.as_str()).unicode_len() == 0 {
            return Err(String::from_str("prompt-sequence step is missing a prompt"));
        }
        let attachments = match toml.attachments {
            None => None,
            Some(paths) => {
                let mut out: Vec<String> = Vec::new();
                let mut i: usize = 0;
                while i < paths.len()
                    invariant
                        0 <= i <= paths@.len(),
                        out@.len() == i,
                        forall|j: int| 0 <= j < i ==> #[trigger] out@[j]@ == resolved(base_dir@, paths@[j]@),
                    decreases paths@.len() - i,
                {
                    let p = paths[i].as_str();
                    if is_absolute_path(p) {
                        out.push(p.to_owned());
                    } else {
                        out.push(join_path(base_dir, p));
                    }
                    i = i + 1;
                }
                Some(out)
            },
        };
        Ok(PromptSequenceStep { prompt: toml.prompt, name: toml.name, attachments })
    }
}

/// A sequence of prompt steps and how far it has run.
pub struct PromptSequenceRunner {
    steps: Vec<PromptSequenceStep>,
    current: usize,
    source: String,
}

/// The directory that attachments of a sequence file are resolved against:
/// the file's parent, or `.` when it has none.
pub open spec fn base_dir_of(source: Seq<char>) -> Seq<char> {
    match parent_path(source) {
        Some(p) => p,
        None => "."@,
    }
}

/// The description of step `index`: its name, or `Step n` counting from one.
pub open spec fn step_description(name: Option<String>, index: nat) -> Seq<char> {
    match name {
        Some(n) => n@,
        None => "Step "@ + decimal(index + 1),
    }
}

impl PromptSequenceRunner {
    pub closed spec fn steps(&self) -> Seq<PromptSequenceStep> {
        self.steps@
    }

    pub closed spec fn position(&self) -> nat {
        self.current as nat
    }

    pub closed spec fn source_path(&self) -> Seq<char> {
        self.source@
    }

    /// The position never passes the end.
    pub closed spec fn wf(&self) -> bool {
        self.current <= self.steps@.len()
    }

    /// A runner at the first of `steps`, read from the sequence file at
    /// `source`. A sequence without steps is refused, and so is any step
    /// that `PromptSequenceStep::from_toml` refuses.
    pub fn from_steps(source: String, steps: Vec<PromptSequenceStepToml>) -> (r: Result<PromptSequenceRunner, String>)
        ensures
            steps@.len() == 0 ==> (r matches Err(m)
                && m@ == "prompt-sequence "@ + source@ + " does not define any [[steps]] entries"@),
            r is Ok <==> steps@.len() > 0 && forall|i: int| 0 <= i < steps@.len()
                ==> trimmed((#[trigger] steps@[i]).prompt@).len() > 0,
            r matches Ok(run) ==> run.wf() && run.position() == 0 && run.source_path() == source@
                && run.steps().len() == steps@.len()
                && forall|i: int| 0 <= i < steps@.len()
                    ==> step_from(steps@[i], #[trigger] run.steps()[i], base_dir_of(source@)),
    {
        if steps.len() == 0 {
            return Err(String::from_str("prompt-sequence ").concat(source.as_str()).concat(
                " does not define any [[steps]] entries",
            ));
        }
        let base_dir = match path_parent(source.as_str()) {
            Some(p) => p,
            None => String::from_str("."),
        };
        proof { reveal_strlit("."); }
        let ghost orig = steps@;
        let mut rest = steps;
        let mut out: Vec<PromptSequenceStep> = Vec::new();
        // Steps are taken from the back, then put back in order.
        let mut rev: Vec<PromptSequenceStep> = Vec::new();
        while rest.len() > 0
            invariant
                rest@.len() + rev@.len() == orig.len(),
                orig == steps@,
                orig.len() > 0,
                rest@ == orig.subrange(0, rest@.len() as int),
                base_dir@ == base_dir_of(source@),
                forall|j: int| 0 <= j < rev@.len() ==> step_from(orig[orig.len() - 1 - j], #[trigger] rev@[j], base_dir@),
                forall|j: int| rest@.len() <= j < orig.len() ==> trimmed((#[trigger] orig[j]).prompt@).len() > 0,
            decreases rest@.len(),
        {
            let step = rest.pop().unwrap();
            assert(step == orig[rest@.len() as int]);
            match PromptSequenceStep::from_toml(step, base_dir.as_str()) {
                Ok(s) => rev.push(s),
                Err(m) => {
                    assert(trimmed(orig[rest@.len() as int].prompt@).len() == 0);
                    return Err(m);
                },
            }
            assert(rest@ =~= orig.subrange(0, rest@.len() as int));
        }
        let n = rev.len();
        while rev.len() > 0
            invariant
                rev@.len() + out@.len() == n,
                n == orig.len(),
                orig == steps@,
                forall|j: int| 0 <= j < orig.len() ==> trimmed((#[trigger] orig[j]).prompt@).len() > 0,
                base_dir@ == base_dir_of(source@),
                forall|j: int| 0 <= j < rev@.len() ==> step_from(orig[orig.len() - 1 - j], #[trigger] rev@[j], base_dir@),
                forall|j: int| 0 <= j < out@.len() ==> step_from(orig[j], #[trigger] out@[j], base_dir@),
            decreases rev@.len(),
        {
            let s = rev.pop().unwrap();
            out.push(s);
        }
        Ok(PromptSequenceRunner { steps: out, current: 0, source })
    }

    /// The sequence file the steps came from.
    pub fn source(&self) -> (r: &str)
        ensures
            r@ == self.source_path(),
    {
        self.source.as_str()
    }

    /// Whether a step is left to run.
    pub fn has_remaining(&self) -> (r: bool)
        ensures
            r == (self.position() < self.steps().len()),
    {
        self.current < self.steps.len()
    }

    /// The next step as an entry: its attachments as local images, then its
    /// prompt as text. `None`, and no change, once every step has run.
    pub fn next_entry(&mut self) -> (r: Option<PromptSequenceEntry>)
        requires
            old(self).wf(),
        ensures
            final(self).wf(),
            final(self).steps() == old(self).steps(),
            final(self).source_path() == old(self).source_path(),
            old(self).position() >= old(self).steps().len() ==> r is None && final(self).position() == old(self).position(),
            old(self).position() < old(self).steps().len() ==> (r matches Some(e) && {
                let step = old(self).steps()[old(self).position() as int];
                let n = match step.attachments { Some(a) => a@.len(), None => 0 };
                &&& final(self).position() == old(self).position() + 1
                &&& e.index == old(self).position()
                &&& e.total == old(self).steps().len()
                &&& e.description@ == step_description(step.name, e.index as nat)
                &&& e.items@.len() == n + 1
                &&& forall|i: int| 0 <= i < n ==> is_image(#[trigger] e.items@[i], step.attachments->Some_0@[i]@)
                &&& e.items@[n as int] matches UserInput::Text { text } && text@ == step.prompt@
            }),
    {
        if self.current >= self.steps.len() {
            return None;
        }
        let index = self.current;
        self.current = self.current + 1;
        let step = &self.steps[index];
        let mut items: Vec<UserInput> = Vec::new();
        match &step.attachments {
            Some(a) => {
                let mut i: usize = 0;
                while i < a.len()
                    invariant
                        0 <= i <= a@.len(),
                        items@.len() == i,
                        forall|j: int| 0 <= j < i ==> is_image(#[trigger] items@[j], a@[j]@),
                    decreases a@.len() - i,
                {
                    items.push(UserInput::LocalImage { path: a[i].clone() });
                    i = i + 1;
                }
            },
            None => {},
        }
        items.push(UserInput::Text { text: step.prompt.clone() });
        let description = match copy_opt(&step.name) {
            Some(n) => n,
            None => String::from_str("Step ").concat(crate::json::u64_text((index as u64) + 1).as_str()),
        };
        proof { reveal_strlit("Step "); }
        Some(PromptSequenceEntry { items, description, index, total: self.steps.len() })
    }
}

} // verus!
