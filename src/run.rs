use vstd::prelude::*;

use crate::error::KeysetError;
use crate::path::path_join;
use crate::profile::{layout_args, strings_view, Keyboard};

verus! {

/// The parsed command-line options of one run.
pub struct CliOptions {
    /// Reserved: parsed and carried, never consulted.
    pub default: String,
    /// Show what would be invoked instead of invoking it.
    pub debug: bool,
    /// Show the configured profile names.
    pub list: bool,
    /// Show every attached identifier that has a profile.
    pub attached: bool,
    /// Select this profile without looking at the attached devices.
    pub force: Option<String>,
    /// Also apply the profile's remap file after the layout.
    pub apply_remap: bool,
}

/// What a run does first.
pub enum Plan {
    /// Show the profile names; nothing is enumerated.
    ListProfiles,
    /// Apply the named profile; nothing is enumerated.
    Forced(String),
    /// Enumerate, then show every configured identifier.
    ShowAttached,
    /// Enumerate, then apply the profile of the first configured identifier.
    Detect,
}

impl Plan {
    /// This plan needs the list of attached devices.
    pub open spec fn enumerates(&self) -> bool {
        self is ShowAttached || self is Detect
    }

    /// Whether this plan needs the list of attached devices.
    pub fn needs_devices(&self) -> (r: bool)
        ensures
            r == self.enumerates(),
    {
        match self {
            Plan::ShowAttached | Plan::Detect => true,
            _ => false,
        }
    }
}

/// `p` is what `opts` call for: listing first, then a forced profile, then
/// the attached listing, else detection.
pub open spec fn plan_for(opts: CliOptions, p: Plan) -> bool {
    if opts.list {
        p is ListProfiles
    } else if opts.force is Some {
        p is Forced && p->Forced_0@ == opts.force->0@
    } else if opts.attached {
        p is ShowAttached
    } else {
        p is Detect
    }
}

/// Decides what a run does from its options.
pub fn plan(opts: &CliOptions) -> (r: Plan)
    ensures
        plan_for(*opts, r),
{
    if opts.list {
        Plan::ListProfiles
    } else {
        match &opts.force {
            Some(name) => Plan::Forced(name.clone()),
            None => {
                if opts.attached {
                    Plan::ShowAttached
                } else {
                    Plan::Detect
                }
            },
        }
    }
}

/// A forced profile never calls for the list of attached devices.
pub proof fn lemma_force_skips_enumeration(opts: CliOptions, p: Plan)
    requires
        opts.force is Some,
        plan_for(opts, p),
    ensures
        !p.enumerates(),
{
}

/// One call of an external tool.
pub enum Invocation {
    /// The layout tool with these arguments.
    Layout(Vec<String>),
    /// The remap tool on this file.
    Remap(String),
}

impl Invocation {
    /// The program this call runs.
    pub fn program(&self) -> (r: &'static str)
        ensures
            self is Layout ==> r@ == "setxkbmap"@,
            self is Remap ==> r@ == "xmodmap"@,
    {
        match self {
            Invocation::Layout(_) => "setxkbmap",
            Invocation::Remap(_) => "xmodmap",
        }
    }

    /// The arguments this call hands its program.
    pub fn arguments(&self) -> (r: Vec<String>)
        ensures
            self is Layout ==> strings_view(r@) == strings_view(self->Layout_0@),
            self is Remap ==> strings_view(r@) == seq![self->Remap_0@],
    {
        match self {
            Invocation::Layout(args) => copy_strings(args),
            Invocation::Remap(path) => {
                let mut r: Vec<String> = Vec::new();
                r.push(path.clone());
                assert(strings_view(r@) =~= seq![path@]);
                r
            },
        }
    }
}

/// A copy of `v`, string by string.
fn copy_strings(v: &Vec<String>) -> (r: Vec<String>)
    ensures
        strings_view(r@) == strings_view(v@),
{
    let n: usize = v.len();
    let mut r: Vec<String> = Vec::new();
    let mut i: usize = 0;
    while i < n
        invariant
            n == v.len(),
            i <= n,
            strings_view(r@) == strings_view(v@).take(i as int),
        decreases n - i,
    {
        let ghost before = r@;
        r.push(v[i].clone());
        assert(r@ == before.push(v@[i as int]));
        assert(strings_view(r@) =~= strings_view(before).push(v@[i as int]@));
        assert(strings_view(v@).take(i as int + 1) =~= strings_view(v@).take(i as int).push(
            v@[i as int]@,
        ));
        i = i + 1;
    }
    assert(strings_view(v@).take(n as int) =~= strings_view(v@));
    r
}

/// The external calls that applying a profile makes, in order: none in debug
/// mode; else the layout tool, then the remap tool where that is enabled.
pub open spec fn invocations_for(
    k: Keyboard,
    remap_path: Seq<char>,
    debug: bool,
    apply_remap: bool,
    r: Seq<Invocation>,
) -> bool {
    if debug {
        r.len() == 0
    } else {
        &&& r.len() == if apply_remap { 2int } else { 1int }
        &&& r[0] is Layout && strings_view(r[0]->Layout_0@) == layout_args(k@)
        &&& apply_remap ==> r[1] is Remap && r[1]->Remap_0@ == remap_path
    }
}

/// The external calls for applying `keyboard`, whose remap file lies in
/// `xmodmap_dir`; `remap_is_file` tells whether that file exists. A missing
/// remap file is an error whatever the mode.
pub fn set_keyboard(keyboard: &Keyboard, xmodmap_dir: &str, remap_is_file: bool, opts: &CliOptions) -> (r:
    Result<Vec<Invocation>, KeysetError>)
    ensures
        !remap_is_file ==> r is Err && r->Err_0 is RemapFileMissing
            && r->Err_0->RemapFileMissing_0@ == path_join(xmodmap_dir@, keyboard.xmodmapconfig@),
        remap_is_file ==> r is Ok && invocations_for(
            *keyboard,
            path_join(xmodmap_dir@, keyboard.xmodmapconfig@),
            opts.debug,
            opts.apply_remap,
            r->Ok_0@,
        ),
{
    let path = match keyboard.xmodmap_file(xmodmap_dir, remap_is_file) {
        Ok(p) => p,
        Err(e) => {
            return Err(e);
        },
    };
    let mut r: Vec<Invocation> = Vec::new();
    if !opts.debug {
        r.push(Invocation::Layout(keyboard.setxkbmap_args()));
        if opts.apply_remap {
            r.push(Invocation::Remap(path));
        }
    }
    Ok(r)
}

/// How one external call ended.
pub enum InvocationOutcome {
    /// The tool ran and exited with this status.
    Exited(i32),
    /// The tool could not be started.
    LaunchFailed,
}

/// Whether the run goes on after a call of `program`: a tool that could not
/// be started is fatal; any exit status, zero or not, is not.
pub fn check_launch(outcome: &InvocationOutcome, program: &str) -> (r: Result<(), KeysetError>)
    ensures
        outcome is LaunchFailed ==> r is Err && r->Err_0 is LaunchError && r->Err_0->LaunchError_0@
            == program@,
        outcome is Exited ==> r is Ok,
{
    match outcome {
        InvocationOutcome::Exited(_) => Ok(()),
        InvocationOutcome::LaunchFailed => Err(KeysetError::LaunchError(program.to_owned())),
    }
}

} // verus!
