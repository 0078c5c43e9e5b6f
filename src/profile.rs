use vstd::prelude::*;

use crate::error::KeysetError;
use crate::path::{join_path, path_join};

verus! {

/// One named layout definition.
pub struct Keyboard {
    /// Base layout code.
    pub mapping: String,
    /// Layout variant tag.
    pub variant: String,
    /// Layout-tool option tokens, applied in this order.
    pub options: Vec<String>,
    /// File name of the key-remap file, relative to the remap directory.
    pub xmodmapconfig: String,
}

/// What a `Keyboard` holds, as sequences of characters.
pub struct KeyboardView {
    pub mapping: Seq<char>,
    pub variant: Seq<char>,
    pub options: Seq<Seq<char>>,
    pub xmodmapconfig: Seq<char>,
}

impl View for Keyboard {
    type V = KeyboardView;

    open spec fn view(&self) -> KeyboardView {
        KeyboardView {
            mapping: self.mapping@,
            variant: self.variant@,
            options: strings_view(self.options@),
            xmodmapconfig: self.xmodmapconfig@,
        }
    }
}

/// The character sequences of a sequence of strings.
pub open spec fn strings_view(s: Seq<String>) -> Seq<Seq<char>> {
    s.map_values(|x: String| x@)
}

/// The layout tool's flag before each option.
pub open spec fn option_flag() -> Seq<char> {
    "-option"@
}

/// `-option o` for each option `o`, in order.
pub open spec fn option_args(options: Seq<Seq<char>>) -> Seq<Seq<char>>
    decreases options.len(),
{
    if options.len() == 0 {
        seq![]
    } else {
        option_args(options.drop_last()) + seq![option_flag(), options.last()]
    }
}

/// The layout tool's arguments for a profile: mapping, `-variant` and the
/// variant, then the options.
pub open spec fn layout_args(k: KeyboardView) -> Seq<Seq<char>> {
    seq![k.mapping, "-variant"@, k.variant] + option_args(k.options)
}

/// Each option becomes `-option` followed by the option, in the order given.
pub proof fn lemma_option_args_order(options: Seq<Seq<char>>)
    ensures
        option_args(options).len() == 2 * options.len(),
        forall|i: int| 0 <= i < options.len() ==> option_args(options)[2 * i + 1] == #[trigger] options[i],
        forall|i: int| 0 <= i < options.len() ==> #[trigger] option_args(options)[2 * i] == option_flag(),
    decreases options.len(),
{
    if options.len() > 0 {
        let init = options.drop_last();
        lemma_option_args_order(init);
        assert forall|i: int| 0 <= i < options.len() implies option_args(options)[2 * i] == option_flag()
            && option_args(options)[2 * i + 1] == #[trigger] options[i] by {
            let tail: Seq<Seq<char>> = seq![option_flag(), options.last()];
            assert(option_args(options) == option_args(init) + tail);
            if i < init.len() {
                assert(init[i] == options[i]);
                assert(option_args(init)[2 * i] == option_flag());
                assert(option_args(init)[2 * i + 1] == init[i]);
            } else {
                assert(option_args(options)[2 * i] == tail[0]);
            }
        }
    }
}

/// The layout arguments end with the options, each after its own `-option`
/// flag, never reordered.
pub proof fn lemma_options_in_order(k: KeyboardView)
    ensures
        layout_args(k).len() == 3 + 2 * k.options.len(),
        forall|i: int|
            0 <= i < k.options.len() ==> layout_args(k)[3 + 2 * i] == option_flag() && layout_args(
                k,
            )[3 + 2 * i + 1] == #[trigger] k.options[i],
{
    lemma_option_args_order(k.options);
    assert forall|i: int| 0 <= i < k.options.len() implies layout_args(k)[3 + 2 * i] == option_flag()
        && layout_args(k)[3 + 2 * i + 1] == #[trigger] k.options[i] by {
        assert(option_args(k.options)[2 * i + 1] == k.options[i]);
        assert(option_args(k.options)[2 * i] == option_flag());
    }
}

/// The layout arguments depend on the profile alone: building them twice from
/// one profile gives the same sequence.
pub proof fn lemma_args_deterministic(a: Keyboard, b: Keyboard)
    requires
        a@ == b@,
    ensures
        layout_args(a@) == layout_args(b@),
{
}

impl Keyboard {
    /// The argument sequence for the layout tool.
    pub fn setxkbmap_args(&self) -> (r: Vec<String>)
        ensures
            strings_view(r@) == layout_args(self@),
    {
        let mut args: Vec<String> = Vec::new();
        args.push(self.mapping.clone());
        args.push("-variant".to_owned());
        args.push(self.variant.clone());
        let ghost head: Seq<Seq<char>> = seq![self.mapping@, "-variant"@, self.variant@];
        assert(strings_view(args@) =~= head);
        let n: usize = self.options.len();
        let mut i: usize = 0;
        while i < n
            invariant
                n == self.options.len(),
                i <= n,
                strings_view(args@) == head + option_args(strings_view(self.options@).take(i as int)),
            decreases n - i,
        {
            let ghost before = args@;
            args.push("-option".to_owned());
            args.push(self.options[i].clone());
            proof {
                let opts = strings_view(self.options@);
                let t = opts.take(i as int + 1);
                assert(t.drop_last() =~= opts.take(i as int));
                assert(t.last() == self.options[i as int]@);
                assert(strings_view(args@) =~= strings_view(before) + seq!["-option"@, self.options[i as int]@]);
            }
            i = i + 1;
        }
        assert(strings_view(self.options@).take(n as int) =~= strings_view(self.options@));
        args
    }

    /// The full path of this profile's remap file inside `xmodmap_dir`.
    pub fn xmodmap_path(&self, xmodmap_dir: &str) -> (r: String)
        ensures
            r@ == path_join(xmodmap_dir@, self.xmodmapconfig@),
    {
        join_path(xmodmap_dir, self.xmodmapconfig.as_str())
    }

    /// The remap file's path, given whether that path names an existing
    /// regular file; a missing file is an error naming the path.
    pub fn xmodmap_file(&self, xmodmap_dir: &str, is_file: bool) -> (r: Result<String, KeysetError>)
        ensures
            is_file ==> r is Ok && r->Ok_0@ == path_join(xmodmap_dir@, self.xmodmapconfig@),
            !is_file ==> r is Err && r->Err_0 is RemapFileMissing
                && r->Err_0->RemapFileMissing_0@ == path_join(xmodmap_dir@, self.xmodmapconfig@),
    {
        let p = self.xmodmap_path(xmodmap_dir);
        if is_file {
            Ok(p)
        } else {
            Err(KeysetError::RemapFileMissing(p))
        }
    }
}

} // verus!
