//! The decisions behind the `main` attribute, which turns a scroll's `run`
//! function into the entry point that the host calls.
//!
//! Parsing the attribute's tokens and writing the generated code is left to
//! the caller; what is accepted, what is refused and what is generated is
//! decided here.
use vstd::prelude::*;
use crate::filter::owned;

verus! {

/// Controls code generation for the `main` attribute.
pub struct MainAttrs {
    /// Disables the default panic handler, allowing a custom implementation.
    pub no_panic_handler: bool,
}

/// Why the `main` attribute refuses its input.
#[derive(Debug, PartialEq, Eq, Structural, Clone, Copy)]
pub enum MainError {
    /// The option at this position of the attribute's list is not known.
    UnknownOption(usize),
    /// The function is not named `run`.
    NotNamedRun,
    /// The function is public or restricted-public.
    NotPrivate,
    /// The function is `async`.
    NotSynchronous,
}

/// What the entry point is generated with.
pub struct MainPlan {
    /// Register a panic handler that logs the panic.
    pub panic_handler: bool,
    /// Refuse a null parameters pointer before reading parameters.
    pub check_pointer: bool,
}

/// The one option that the attribute knows.
pub open spec fn no_panic_handler_option() -> Seq<char> {
    seq!['n', 'o', '_', 'p', 'a', 'n', 'i', 'c', '_', 'h', 'a', 'n', 'd', 'l', 'e', 'r']
}

/// The name that the entry function must have.
pub open spec fn run_name() -> Seq<char> {
    seq!['r', 'u', 'n']
}

/// The options as text.
pub open spec fn option_texts(options: Seq<String>) -> Seq<Seq<char>> {
    options.map_values(|o: String| o@)
}

/// The first option that is not known, if any.
pub open spec fn first_unknown(options: Seq<Seq<char>>, i: int) -> bool {
    &&& 0 <= i < options.len()
    &&& options[i] != no_panic_handler_option()
    &&& forall|j: int| 0 <= j < i ==> options[j] == no_panic_handler_option()
}

/// Reads the attribute's options.
///
/// The only option is `no_panic_handler`; any other fails with its position.
pub fn parse_main_attrs(options: &Vec<String>) -> (r: Result<MainAttrs, MainError>)
    ensures
        match r {
            Ok(attrs) => (forall|j: int| 0 <= j < options@.len() ==> #[trigger] options@[j]@ == no_panic_handler_option())
                && attrs.no_panic_handler == (options@.len() > 0),
            Err(MainError::UnknownOption(i)) => first_unknown(option_texts(options@), i as int),
            Err(_) => false,
        },
{
    let known = owned("no_panic_handler");
    proof {
        reveal_strlit("no_panic_handler");
        assert(known@ =~= no_panic_handler_option());
    }
    let mut no_panic_handler = false;
    let mut i: usize = 0;
    while i < options.len()
        invariant
            0 <= i <= options@.len(),
            known@ == no_panic_handler_option(),
            forall|j: int| 0 <= j < i ==> #[trigger] options@[j]@ == no_panic_handler_option(),
            no_panic_handler == (i > 0),
        decreases options@.len() - i,
    {
        if options[i] == known {
            no_panic_handler = true;
        } else {
            proof {
                assert(first_unknown(option_texts(options@), i as int));
            }
            return Err(MainError::UnknownOption(i));
        }
        i = i + 1;
    }
    Ok(MainAttrs { no_panic_handler })
}

/// Checks the function that the attribute is put on: it must be named `run`,
/// be private and be synchronous, checked in that order.
pub fn check_run_fn(name: &str, is_private: bool, is_async: bool) -> (r: Result<(), MainError>)
    ensures
        r == (if name@ != run_name() {
            Err(MainError::NotNamedRun)
        } else if !is_private {
            Err(MainError::NotPrivate)
        } else if is_async {
            Err(MainError::NotSynchronous)
        } else {
            Ok(())
        }),
{
    let expected = owned("run");
    let given = owned(name);
    proof {
        reveal_strlit("run");
        assert(expected@ =~= run_name());
    }
    if given != expected {
        Err(MainError::NotNamedRun)
    } else if !is_private {
        Err(MainError::NotPrivate)
    } else if is_async {
        Err(MainError::NotSynchronous)
    } else {
        Ok(())
    }
}

/// Decides how the entry point is generated: the options are read first, then
/// the function is checked; a panic handler is registered unless the options
/// ask otherwise, and the pointer is checked when there are parameters to read.
pub fn plan_main(
    options: &Vec<String>,
    name: &str,
    is_private: bool,
    is_async: bool,
    param_count: usize,
) -> (r: Result<MainPlan, MainError>)
    ensures
        match r {
            Ok(plan) => {
                &&& forall|j: int| 0 <= j < options@.len() ==> #[trigger] options@[j]@ == no_panic_handler_option()
                &&& name@ == run_name() && is_private && !is_async
                &&& plan.panic_handler == (options@.len() == 0)
                &&& plan.check_pointer == (param_count > 0)
            },
            Err(MainError::UnknownOption(i)) => first_unknown(option_texts(options@), i as int),
            Err(MainError::NotNamedRun) => (forall|j: int| 0 <= j < options@.len() ==> #[trigger] options@[j]@
                == no_panic_handler_option()) && name@ != run_name(),
            Err(MainError::NotPrivate) => (forall|j: int| 0 <= j < options@.len() ==> #[trigger] options@[j]@
                == no_panic_handler_option()) && name@ == run_name() && !is_private,
            Err(MainError::NotSynchronous) => (forall|j: int| 0 <= j < options@.len() ==> #[trigger] options@[j]@
                == no_panic_handler_option()) && name@ == run_name() && is_private && is_async,
        },
{
    let attrs = match parse_main_attrs(options) {
        Ok(a) => a,
        Err(e) => {
            return Err(e);
        },
    };
    match check_run_fn(name, is_private, is_async) {
        Ok(()) => {},
        Err(e) => {
            return Err(e);
        },
    }
    Ok(MainPlan { panic_handler: !attrs.no_panic_handler, check_pointer: param_count > 0 })
}

} // verus!
