//! The command-line surface.
//!
//! `--input <file>` names the configuration resource, `--dt` and `--T`
//! override the time step and the total simulated duration, and `--test`
//! runs the convergence self-test instead (ignoring the others).  A
//! missing `--input` when not testing, a flag without its value, or an
//! unrecognized flag all ask for the usage message; a malformed numeric
//! value is a fatal [`ArgsError`].
//!
//! [`parse_args`] only decides; reading the argument list and acting on
//! the decision is the caller's part.

use vstd::prelude::*;
use crate::parse::{parse_real, parse_real_spec, views_of};
use crate::stream::push_bytes;

verus! {

/// Default time step: 0.0001 in fixed point.
pub const DEFAULT_DT: i64 = 429496;

/// Default total simulated duration: 10 in fixed point.
pub const DEFAULT_MAX_TIME: i64 = 42949672960;

/// A fatal command-line failure: a numeric flag value could not be read.
#[derive(Clone, Copy, PartialEq, Eq, Structural, Debug)]
pub enum ArgsError {
    /// The value of `--dt` is not a real literal.
    InvalidDt,
    /// The value of `--T` is not a real literal.
    InvalidMaxTime,
}

/// Mathematical view of a command-line decision.
#[verifier::ext_equal]
pub ghost enum CommandV {
    /// Print the usage message and exit cleanly.
    Usage,
    /// Run the convergence self-test.
    SelfTest,
    /// Run a simulation of the named resource.
    Run { file: Seq<u8>, dt: int, max_time: int },
}

/// What the command line asks for.
pub enum Command {
    /// Print the usage message and exit cleanly.
    Usage,
    /// Run the convergence self-test.
    SelfTest,
    /// Run a simulation of the named resource.
    Run { file: Vec<u8>, dt: i64, max_time: i64 },
}

impl View for Command {
    type V = CommandV;

    open spec fn view(&self) -> CommandV {
        match self {
            Command::Usage => CommandV::Usage,
            Command::SelfTest => CommandV::SelfTest,
            Command::Run { file, dt, max_time } => CommandV::Run {
                file: file@,
                dt: *dt as int,
                max_time: *max_time as int,
            },
        }
    }
}

/// The bytes of `--input`.
pub open spec fn input_flag() -> Seq<u8> {
    seq![45u8, 45u8, 105u8, 110u8, 112u8, 117u8, 116u8]
}

/// The bytes of `--dt`.
pub open spec fn dt_flag() -> Seq<u8> {
    seq![45u8, 45u8, 100u8, 116u8]
}

/// The bytes of `--T`.
pub open spec fn t_flag() -> Seq<u8> {
    seq![45u8, 45u8, 84u8]
}

/// The bytes of `--test`.
pub open spec fn test_flag() -> Seq<u8> {
    seq![45u8, 45u8, 116u8, 101u8, 115u8, 116u8]
}

fn is_input_flag(a: &Vec<u8>) -> (r: bool)
    ensures
        r == (a@ == input_flag()),
{
    let r = a.len() == 7 && a[0] == 45 && a[1] == 45 && a[2] == 105 && a[3] == 110 && a[4] == 112
        && a[5] == 117 && a[6] == 116;
    proof {
        if r {
            assert(a@ =~= input_flag());
        }
        if a@ == input_flag() {
            assert(r);
        }
    }
    r
}

fn is_dt_flag(a: &Vec<u8>) -> (r: bool)
    ensures
        r == (a@ == dt_flag()),
{
    let r = a.len() == 4 && a[0] == 45 && a[1] == 45 && a[2] == 100 && a[3] == 116;
    proof {
        if r {
            assert(a@ =~= dt_flag());
        }
        if a@ == dt_flag() {
            assert(r);
        }
    }
    r
}

fn is_t_flag(a: &Vec<u8>) -> (r: bool)
    ensures
        r == (a@ == t_flag()),
{
    let r = a.len() == 3 && a[0] == 45 && a[1] == 45 && a[2] == 84;
    proof {
        if r {
            assert(a@ =~= t_flag());
        }
        if a@ == t_flag() {
            assert(r);
        }
    }
    r
}

fn is_test_flag(a: &Vec<u8>) -> (r: bool)
    ensures
        r == (a@ == test_flag()),
{
    let r = a.len() == 6 && a[0] == 45 && a[1] == 45 && a[2] == 116 && a[3] == 101 && a[4] == 115
        && a[5] == 116;
    proof {
        if r {
            assert(a@ =~= test_flag());
        }
        if a@ == test_flag() {
            assert(r);
        }
    }
    r
}

/// The decision the argument list at and after position `i` owes, given
/// the settings gathered so far.  A flag with a value consumes two
/// positions; `--test` consumes one; anything else asks for usage.
pub open spec fn args_loop(
    args: Seq<Seq<u8>>,
    i: int,
    file: Seq<u8>,
    dt: int,
    mt: int,
    test: bool,
) -> Result<CommandV, ArgsError>
    decreases vstd::math::max(args.len() - i, 0),
    when i >= 1
{
    if i >= args.len() {
        if test {
            Ok(CommandV::SelfTest)
        } else if file.len() == 0 {
            Ok(CommandV::Usage)
        } else {
            Ok(CommandV::Run { file, dt, max_time: mt })
        }
    } else if i < args.len() - 1 && args[i] == input_flag() {
        args_loop(args, i + 2, args[i + 1], dt, mt, test)
    } else if i < args.len() - 1 && args[i] == dt_flag() {
        match parse_real_spec(args[i + 1]) {
            Some(v) => args_loop(args, i + 2, file, v, mt, test),
            None => Err(ArgsError::InvalidDt),
        }
    } else if i < args.len() - 1 && args[i] == t_flag() {
        match parse_real_spec(args[i + 1]) {
            Some(v) => args_loop(args, i + 2, file, dt, v, test),
            None => Err(ArgsError::InvalidMaxTime),
        }
    } else if args[i] == test_flag() {
        args_loop(args, i + 1, file, dt, mt, true)
    } else {
        Ok(CommandV::Usage)
    }
}

/// The decision a whole argument list owes (position 0 is the program
/// name).
pub open spec fn parse_args_spec(args: Seq<Seq<u8>>) -> Result<CommandV, ArgsError> {
    args_loop(args, 1, Seq::empty(), DEFAULT_DT as int, DEFAULT_MAX_TIME as int, false)
}

/// Decide what the command line asks for.
pub fn parse_args(args: &Vec<Vec<u8>>) -> (r: Result<Command, ArgsError>)
    ensures
        match r {
            Ok(c) => parse_args_spec(views_of(args@)) == Ok::<CommandV, ArgsError>(c@),
            Err(e) => parse_args_spec(views_of(args@)) == Err::<CommandV, ArgsError>(e),
        },
{
    let ghost av: Seq<Seq<u8>> = views_of(args@);
    let argc = args.len();
    let mut file: Vec<u8> = Vec::new();
    let mut dt: i64 = DEFAULT_DT;
    let mut mt: i64 = DEFAULT_MAX_TIME;
    let mut test = false;
    let mut i: usize = 1;
    while i < argc
        invariant
            1 <= i,
            argc == av.len(),
            av == views_of(args@),
            argc == args@.len(),
            args_loop(av, i as int, file@, dt as int, mt as int, test) == parse_args_spec(av),
        decreases argc - i,
    {
        proof {
            assert(av[i as int] == args@[i as int]@);
            if i as int + 1 < argc as int {
                assert(av[i as int + 1] == args@[i as int + 1]@);
            }
        }
        if i < argc - 1 && is_input_flag(&args[i]) {
            let mut f: Vec<u8> = Vec::new();
            push_bytes(&mut f, &args[i + 1]);
            proof {
                assert(f@ =~= av[i as int + 1]);
            }
            file = f;
            i = i + 2;
        } else if i < argc - 1 && is_dt_flag(&args[i]) {
            match parse_real(&args[i + 1]) {
                Some(v) => {
                    dt = v;
                    i = i + 2;
                },
                None => {
                    return Err(ArgsError::InvalidDt);
                },
            }
        } else if i < argc - 1 && is_t_flag(&args[i]) {
            match parse_real(&args[i + 1]) {
                Some(v) => {
                    mt = v;
                    i = i + 2;
                },
                None => {
                    return Err(ArgsError::InvalidMaxTime);
                },
            }
        } else if is_test_flag(&args[i]) {
            test = true;
            i = i + 1;
        } else {
            return Ok(Command::Usage);
        }
    }
    if test {
        return Ok(Command::SelfTest);
    }
    if file.len() == 0 {
        return Ok(Command::Usage);
    }
    Ok(Command::Run { file, dt, max_time: mt })
}

} // verus!
