use crate::assoc::map_of;
use crate::parameters::Parameters;
use crate::reentry::{
    args_view, lemma_flags, parameter_of, parameter_pairs_in, parameters_in, run_task_flag,
    scheduled_task_in, task_name_in, task_name_of, task_param_flag,
};
use crate::text::{lemma_first_index, split_at_first, without_prefix};
use vstd::prelude::*;

verus! {

/// What every job name begins with.
pub open spec fn job_name_prefix() -> Seq<char> {
    "scheduled-task-"@
}

/// The name under which the operating system's scheduler holds the job of
/// the task `task_id`.
pub open spec fn job_name_of(task_id: Seq<char>) -> Seq<char> {
    job_name_prefix() + task_id
}

/// The name under which the operating system's scheduler holds the job of
/// the task `task_id`. The job is registered under it and found again under it
/// when the task is cancelled.
pub fn job_name(task_id: &str) -> (name: String)
    ensures
        name@ == job_name_of(task_id@),
{
    let mut name = "scheduled-task-".to_string();
    name.append(task_id);
    name
}

/// Two tasks never share a job name.
pub proof fn lemma_job_names_differ(first: Seq<char>, second: Seq<char>)
    requires
        first != second,
    ensures
        job_name_of(first) != job_name_of(second),
{
    let n = job_name_prefix().len() as int;
    if job_name_of(first) == job_name_of(second) {
        assert(job_name_of(first).skip(n) =~= first);
        assert(job_name_of(second).skip(n) =~= second);
    }
}

/// The argument that names the task to run.
pub open spec fn run_task_arg(task_name: Seq<char>) -> Seq<char> {
    run_task_flag() + task_name
}

/// The argument that gives one parameter.
pub open spec fn task_param_arg(key: Seq<char>, value: Seq<char>) -> Seq<char> {
    task_param_flag() + key + seq!['='] + value
}

/// The arguments with which the host is launched again to run the task
/// `task_name` with the parameters `pairs`: the task's name first, then one
/// argument for each parameter, in order.
pub open spec fn relaunch_args(
    task_name: Seq<char>,
    pairs: Seq<(Seq<char>, Seq<char>)>,
) -> Seq<Seq<char>> {
    seq![run_task_arg(task_name)] + pairs.map_values(
        |p: (Seq<char>, Seq<char>)| task_param_arg(p.0, p.1),
    )
}

/// What the argument that names a task, and the argument that gives a
/// parameter whose key holds no `=`, are read as.
pub proof fn lemma_args_read_back(task_name: Seq<char>, key: Seq<char>, value: Seq<char>)
    ensures
        task_name_of(run_task_arg(task_name)) == Some(task_name),
        parameter_of(run_task_arg(task_name)) is None,
        task_name_of(task_param_arg(key, value)) is None,
        !key.contains('=') ==> parameter_of(task_param_arg(key, value)) == Some((key, value)),
{
    lemma_flags();
    let named = run_task_arg(task_name);
    let given = task_param_arg(key, value);
    assert(run_task_flag().is_prefix_of(named));
    assert(named.skip(run_task_flag().len() as int) =~= task_name);
    if task_param_flag().is_prefix_of(named) {
        assert(named[2] == task_param_flag()[2]);
        assert(named[2] == run_task_flag()[2]);
    }
    if run_task_flag().is_prefix_of(given) {
        assert(given[2] == task_param_flag()[2]);
        assert(given[2] == run_task_flag()[2]);
    }
    assert(task_param_flag().is_prefix_of(given));
    let pair = key + seq!['='] + value;
    assert(given.skip(task_param_flag().len() as int) =~= pair);
    if !key.contains('=') {
        let at = key.len() as int;
        assert(pair[at] == '=');
        assert forall|j: int| 0 <= j < at implies pair[j] != '=' by {
            assert(pair[j] == key[j]);
            assert(key.contains(key[j]));
        }
        lemma_first_index(pair, '=', at);
        assert(pair.take(at) =~= key);
        assert(pair.skip(at + 1) =~= value);
    }
}

/// One more parameter is one more argument at the end.
pub proof fn lemma_relaunch_args_push(
    task_name: Seq<char>,
    pairs: Seq<(Seq<char>, Seq<char>)>,
    last: (Seq<char>, Seq<char>),
)
    ensures
        relaunch_args(task_name, pairs.push(last)) == relaunch_args(task_name, pairs).push(
            task_param_arg(last.0, last.1),
        ),
{
    assert(relaunch_args(task_name, pairs.push(last)) =~= relaunch_args(task_name, pairs).push(
        task_param_arg(last.0, last.1),
    ));
}

/// A host that is launched with the arguments made for a task finds that very
/// task in them: its name, and its parameters, provided no key holds a `=`.
pub proof fn lemma_relaunch_round_trip(task_name: Seq<char>, pairs: Seq<(Seq<char>, Seq<char>)>)
    requires
        forall|i: int| 0 <= i < pairs.len() ==> !(#[trigger] pairs[i]).0.contains('='),
    ensures
        task_name_in(relaunch_args(task_name, pairs)) == Some(task_name),
        parameter_pairs_in(relaunch_args(task_name, pairs)) == pairs,
        parameters_in(relaunch_args(task_name, pairs)) == map_of(pairs),
        scheduled_task_in(relaunch_args(task_name, pairs)) == Some((task_name, map_of(pairs))),
    decreases pairs.len(),
{
    let args = relaunch_args(task_name, pairs);
    if pairs.len() == 0 {
        let only = run_task_arg(task_name);
        lemma_args_read_back(task_name, Seq::empty(), Seq::empty());
        assert(args =~= seq![only]);
        assert(args.len() == 1);
        assert(args.last() == only);
        assert(args.drop_last().len() == 0);
        assert(task_name_in(args) == Some(task_name));
        assert(parameter_pairs_in(args) == parameter_pairs_in(args.drop_last()));
        assert(parameter_pairs_in(args) =~= pairs);
    } else {
        let front = pairs.drop_last();
        let last = pairs.last();
        assert(pairs =~= front.push(last));
        assert(!pairs[pairs.len() - 1].0.contains('='));
        assert forall|i: int| 0 <= i < front.len() implies !(#[trigger] front[i]).0.contains(
            '=',
        ) by {
            assert(front[i] == pairs[i]);
        }
        lemma_relaunch_round_trip(task_name, front);
        lemma_args_read_back(task_name, last.0, last.1);
        lemma_relaunch_args_push(task_name, front, last);
        let shorter = relaunch_args(task_name, front);
        let arg = task_param_arg(last.0, last.1);
        assert(args == shorter.push(arg));
        assert(args.len() > 0);
        assert(args.last() == arg);
        assert(args.drop_last() =~= shorter);
        assert(task_name_in(args) == task_name_in(shorter));
        assert(parameter_pairs_in(args) == parameter_pairs_in(shorter).push(last));
        assert(parameter_pairs_in(args) =~= pairs);
    }
}

/// The arguments with which the host is launched again to run the task
/// `task_name` with `parameters`.
pub fn relaunch_arguments(task_name: &str, parameters: &Parameters) -> (args: Vec<String>)
    ensures
        args_view(args@) == relaunch_args(task_name@, parameters.pairs()),
{
    let ghost pairs = parameters.pairs();
    let mut first = "--run-task=".to_string();
    first.append(task_name);
    let mut args: Vec<String> = Vec::new();
    args.push(first);
    assert(args_view(args@) =~= relaunch_args(task_name@, pairs.take(0)));
    let n = parameters.len();
    let mut i: usize = 0;
    while i < n
        invariant
            i <= n,
            n == parameters.pairs().len(),
            pairs == parameters.pairs(),
            args_view(args@) == relaunch_args(task_name@, pairs.take(i as int)),
        decreases n - i,
    {
        let mut arg = "--task-param=".to_string();
        arg.append(parameters.key_at(i).as_str());
        arg.append("=");
        arg.append(parameters.value_at(i).as_str());
        proof {
            reveal_strlit("=");
            assert("="@ =~= seq!['=']);
            assert(arg@ =~= task_param_arg(pairs[i as int].0, pairs[i as int].1));
        }
        let ghost before = args_view(args@);
        args.push(arg);
        proof {
            assert(args_view(args@) =~= before.push(arg@));
            assert(pairs.take(i + 1) =~= pairs.take(i as int).push(pairs[i as int]));
            assert(relaunch_args(task_name@, pairs.take(i + 1)) =~= relaunch_args(
                task_name@,
                pairs.take(i as int),
            ).push(task_param_arg(pairs[i as int].0, pairs[i as int].1)));
        }
        i += 1;
    }
    assert(pairs.take(n as int) =~= pairs);
    args
}

} // verus!
