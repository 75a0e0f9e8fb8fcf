//! The action tree: the data model a configuration is loaded into.

use vstd::prelude::*;

verus! {

/// Run-scoped, read-only data for one evaluation: the cache directory path
/// that the embedding program exports into every spawned command's
/// environment.
pub struct Context {
    pub cache_directory: String,
}

/// One argument-producing step of a `Command` action.
#[derive(Debug)]
pub enum Widget {
    /// Render `command` against the arguments resolved so far and run it,
    /// capturing its output; the user picks one line of that output (with
    /// `preview` as the selector's preview template, where given), and the
    /// chosen line becomes the next argument.
    FromCommand { command: String, preview: Option<String> },
    /// Prompt for one line of free text; the line becomes the next argument.
    FreeText,
}

/// A node of the action tree.
#[derive(Debug)]
pub enum Action {
    /// Resolve `widgets` in order, building the argument list, then render
    /// `command` against it and run the result interactively.
    Command { command: String, widgets: Option<Vec<Widget>> },
    /// Present the labels to the selector; the chosen label's action is
    /// evaluated next.
    Select { options: Vec<(String, Action)> },
}

/// A configuration: a labelled set of top-level actions.
#[derive(Debug)]
pub struct Config {
    pub options: Vec<(String, Action)>,
}

impl Config {
    /// The whole configuration, seen as one `Select` over its options.
    pub fn into_action(self) -> (r: Action)
        ensures
            r == (Action::Select { options: self.options }),
    {
        Action::Select { options: self.options }
    }
}

/// Labels within one `Select` are meant to be unique; lookup takes the
/// first match, so a duplicate label would shadow every later entry that
/// carries it.
pub open spec fn labels_unique(options: Seq<(String, Action)>) -> bool {
    forall|i: int, j: int| 0 <= i < j < options.len() ==> options[i].0@ != options[j].0@
}

/// The first action whose label reads the same as `label`.
pub open spec fn find(options: Seq<(String, Action)>, label: Seq<char>) -> Option<Action>
    decreases options.len(),
{
    if options.len() == 0 {
        None
    } else if options[0].0@ == label {
        Some(options[0].1)
    } else {
        find(options.skip(1), label)
    }
}

/// With unique labels, lookup reaches exactly the entry that carries the
/// label.
pub proof fn lemma_find_unique(options: Seq<(String, Action)>, k: int)
    requires
        labels_unique(options),
        0 <= k < options.len(),
    ensures
        find(options, options[k].0@) == Some(options[k].1),
    decreases options.len(),
{
    if k > 0 {
        assert(options[0].0@ != options[k].0@);
        assert(options.skip(1)[k - 1] == options[k]);
        assert forall|i: int, j: int|
            0 <= i < j < options.skip(1).len() implies options.skip(1)[i].0@ != options.skip(
            1,
        )[j].0@ by {
            assert(options.skip(1)[i] == options[i + 1]);
            assert(options.skip(1)[j] == options[j + 1]);
        }
        lemma_find_unique(options.skip(1), k - 1);
    }
}

/// The label list handed to the selector after the first label: each later
/// label preceded by a newline.
pub open spec fn labels_tail(options: Seq<(String, Action)>) -> Seq<char>
    decreases options.len(),
{
    if options.len() == 0 {
        Seq::empty()
    } else {
        seq!['\n'] + options[0].0@ + labels_tail(options.skip(1))
    }
}

/// The newline-joined label list handed to the selector for a `Select`.
pub open spec fn labels_input(options: Seq<(String, Action)>) -> Seq<char> {
    if options.len() == 0 {
        Seq::empty()
    } else {
        options[0].0@ + labels_tail(options.skip(1))
    }
}

/// Join the labels with newlines, in order.
pub fn join_labels(options: &Vec<(String, Action)>) -> (r: String)
    ensures
        r@ == labels_input(options@),
{
    let mut res = String::new();
    if options.len() == 0 {
        return res;
    }
    res.append(options[0].0.as_str());
    let mut i: usize = 1;
    proof {
        assert(res@ == Seq::<char>::empty() + options@[0].0@);
        assert(Seq::<char>::empty() + options@[0].0@ =~= options@[0].0@);
    }
    while i < options.len()
        invariant
            1 <= i <= options@.len(),
            res@ + labels_tail(options@.skip(i as int)) == labels_input(options@),
        decreases options@.len() - i,
    {
        proof {
            reveal_strlit("\n");
            assert("\n"@ =~= seq!['\n']);
            assert(options@.skip(i as int)[0] == options@[i as int]);
            assert(options@.skip(i as int).skip(1) =~= options@.skip(i + 1));
            assert(labels_tail(options@.skip(i as int)) == seq!['\n'] + options@[i as int].0@
                + labels_tail(options@.skip(i + 1)));
            assert(((res@ + seq!['\n']) + options@[i as int].0@) + labels_tail(
                options@.skip(i + 1),
            ) =~= res@ + (seq!['\n'] + options@[i as int].0@ + labels_tail(
                options@.skip(i + 1),
            )));
        }
        res.append("\n");
        res.append(options[i].0.as_str());
        i = i + 1;
    }
    proof {
        assert(options@.skip(options@.len() as int) =~= Seq::<(String, Action)>::empty());
        assert(res@ + Seq::<char>::empty() =~= res@);
    }
    res
}

/// Take the first action whose label reads the same as `label` out of the
/// options.
pub fn find_action(options: Vec<(String, Action)>, label: &String) -> (r: Option<Action>)
    ensures
        (match r {
            Some(action) => find(options@, label@) == Some(action),
            None => find(options@, label@) is None,
        }),
{
    let mut opts = options;
    while opts.len() > 0
        invariant
            find(options@, label@) == find(opts@, label@),
        decreases opts@.len(),
    {
        let ghost before = opts@;
        let pair = opts.remove(0);
        proof {
            assert(before.remove(0) =~= before.skip(1));
        }
        if pair.0 == *label {
            proof {
                assert(before[0] == pair);
                assert(find(before, label@) == Some(pair.1));
            }
            return Some(pair.1);
        }
    }
    None
}

} // verus!
