use crate::assoc::map_of;
use crate::parameters::{merged, Parameters};
use crate::text::{split_at_first, split_once, strip_prefix, without_prefix};
use vstd::prelude::*;

verus! {

/// The flag that names the task a process was launched to run.
pub open spec fn run_task_flag() -> Seq<char> {
    "--run-task="@
}

/// The flag that gives one parameter of that task, as `key=value`.
pub open spec fn task_param_flag() -> Seq<char> {
    "--task-param="@
}

/// What the two flags hold, character by character.
pub proof fn lemma_flags()
    ensures
        run_task_flag() == seq!['-', '-', 'r', 'u', 'n', '-', 't', 'a', 's', 'k', '='],
        task_param_flag() == seq![
            '-',
            '-',
            't',
            'a',
            's',
            'k',
            '-',
            'p',
            'a',
            'r',
            'a',
            'm',
            '=',
        ],
{
    reveal_strlit("--run-task=");
    reveal_strlit("--task-param=");
    assert(run_task_flag() =~= seq!['-', '-', 'r', 'u', 'n', '-', 't', 'a', 's', 'k', '=']);
    assert(task_param_flag() =~= seq![
        '-',
        '-',
        't',
        'a',
        's',
        'k',
        '-',
        'p',
        'a',
        'r',
        'a',
        'm',
        '=',
    ]);
}

/// The task name that the argument `arg` gives, if it is a `--run-task=` flag.
pub open spec fn task_name_of(arg: Seq<char>) -> Option<Seq<char>> {
    without_prefix(arg, run_task_flag())
}

/// The parameter that the argument `arg` gives, if it is a `--task-param=`
/// flag with a `=` after the flag: the key ends at the first `=`.
pub open spec fn parameter_of(arg: Seq<char>) -> Option<(Seq<char>, Seq<char>)> {
    match without_prefix(arg, task_param_flag()) {
        Some(pair) => split_at_first(pair, '='),
        None => None,
    }
}

/// The task name that `args` give: that of the last `--run-task=` flag.
pub open spec fn task_name_in(args: Seq<Seq<char>>) -> Option<Seq<char>>
    decreases args.len(),
{
    if args.len() == 0 {
        None
    } else {
        match task_name_of(args.last()) {
            Some(name) => Some(name),
            None => task_name_in(args.drop_last()),
        }
    }
}

/// The parameters that `args` give, one pair for each `--task-param=` flag
/// with a `=` after the flag, in the order of the flags.
pub open spec fn parameter_pairs_in(args: Seq<Seq<char>>) -> Seq<(Seq<char>, Seq<char>)>
    decreases args.len(),
{
    if args.len() == 0 {
        Seq::empty()
    } else {
        match parameter_of(args.last()) {
            Some(pair) => parameter_pairs_in(args.drop_last()).push(pair),
            None => parameter_pairs_in(args.drop_last()),
        }
    }
}

/// The parameters that `args` give: for each key, the value of the last
/// `--task-param=` flag with that key.
pub open spec fn parameters_in(args: Seq<Seq<char>>) -> Map<Seq<char>, Seq<char>> {
    map_of(parameter_pairs_in(args))
}

/// The task that a process was launched to run, as its arguments `args`
/// tell: `None` where no argument names a task.
pub open spec fn scheduled_task_in(args: Seq<Seq<char>>) -> Option<
    (Seq<char>, Map<Seq<char>, Seq<char>>),
> {
    match task_name_in(args) {
        Some(name) => Some((name, parameters_in(args))),
        None => None,
    }
}

/// The arguments as plain sequences.
pub open spec fn args_view(args: Seq<String>) -> Seq<Seq<char>> {
    args.map_values(|a: String| a@)
}

/// Tells from the arguments of this process whether it was launched to run a
/// scheduled task, and if so which, with what parameters.
pub fn check_scheduled_task_args(args: &Vec<String>) -> (task: Option<(String, Parameters)>)
    ensures
        match task {
            Some((name, parameters)) => {
                &&& scheduled_task_in(args_view(args@)) == Some((name@, parameters@))
                &&& parameters.pairs() == merged(parameter_pairs_in(args_view(args@)))
            },
            None => scheduled_task_in(args_view(args@)) is None,
        },
{
    let ghost given = args_view(args@);
    let mut task_name: Option<String> = None;
    let mut parameters = Parameters::new();
    let mut i: usize = 0;
    proof {
        lemma_flags();
        assert(given.take(0) =~= Seq::<Seq<char>>::empty());
    }
    while i < args.len()
        invariant
            i <= args.len(),
            given == args_view(args@),
            parameters@ == parameters_in(given.take(i as int)),
            parameters.pairs() == merged(parameter_pairs_in(given.take(i as int))),
            match task_name {
                Some(name) => task_name_in(given.take(i as int)) == Some(name@),
                None => task_name_in(given.take(i as int)) is None,
            },
        decreases args.len() - i,
    {
        let arg = args[i].as_str();
        proof {
            lemma_flags();
            assert(given.take(i + 1).drop_last() =~= given.take(i as int));
            assert(given.take(i + 1).last() == arg@);
            if run_task_flag().is_prefix_of(arg@) && task_param_flag().is_prefix_of(arg@) {
                assert(arg@[2] == run_task_flag()[2]);
                assert(arg@[2] == task_param_flag()[2]);
            }
        }
        match strip_prefix(arg, "--run-task=") {
            Some(name) => {
                task_name = Some(name.to_string());
            },
            None => {
                match strip_prefix(arg, "--task-param=") {
                    Some(pair) => {
                        match split_once(pair, '=') {
                            Some((key, value)) => {
                                proof {
                                    let before = parameter_pairs_in(given.take(i as int));
                                    assert(before.push((key@, value@)).drop_last() =~= before);
                                }
                                parameters.insert(key.to_string(), value.to_string());
                            },
                            None => {},
                        }
                    },
                    None => {},
                }
            },
        }
        i += 1;
    }
    assert(given.take(args.len() as int) =~= given);
    match task_name {
        Some(name) => Some((name, parameters)),
        None => None,
    }
}

} // verus!
