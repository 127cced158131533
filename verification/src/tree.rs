//! What to do with each entry of an application's directory when it is
//! brought to the output tree: a directory is walked, a template fragment is
//! rendered under its name without the suffix, any other file is copied.

use vstd::prelude::*;
use crate::error::{ErrorView, ProcessError};
use crate::text::{push_char, to_chars};

verus! {

/// The extension that marks a file as a template fragment.
pub open spec fn template_extension() -> Seq<char> {
    "tera"@
}

/// The position of the last `.` among the first `n` characters of a name,
/// or -1 where there is none.
pub open spec fn last_dot(name: Seq<char>, n: int) -> int
    decreases n,
{
    if n <= 0 {
        -1
    } else if name[n - 1] == '.' {
        n - 1
    } else {
        last_dot(name, n - 1)
    }
}

/// Where the extension of a file name is split off: the position of its last
/// `.`, if the name has one that is not its first character and the name is
/// not `..`.
pub open spec fn split_point(name: Seq<char>) -> Option<int> {
    let dot = last_dot(name, name.len() as int);
    if dot <= 0 || name == seq!['.', '.'] {
        None
    } else {
        Some(dot)
    }
}

/// The extension of a file name: what follows its last `.`.
pub open spec fn extension(name: Seq<char>) -> Option<Seq<char>> {
    match split_point(name) {
        Some(dot) => Some(name.subrange(dot + 1, name.len() as int)),
        None => None,
    }
}

/// The file name without its extension and the `.` before it.
pub open spec fn stem(name: Seq<char>) -> Seq<char> {
    match split_point(name) {
        Some(dot) => name.subrange(0, dot),
        None => name,
    }
}

/// What is done with an entry of a directory.
#[derive(Debug, PartialEq, Eq)]
pub enum EntryAction {
    /// The entry is a directory: its entries are brought over in turn, into
    /// the directory of the same name.
    Descend,
    /// The entry is a template fragment: it is rendered, and the text is
    /// written under the given name.
    Render { output_name: String },
    /// The entry is any other file: it is copied under its own name.
    Copy,
}

/// What an action holds, as plain values.
pub enum ActionView {
    Descend,
    Render { output_name: Seq<char> },
    Copy,
}

impl View for EntryAction {
    type V = ActionView;

    open spec fn view(&self) -> ActionView {
        match self {
            EntryAction::Descend => ActionView::Descend,
            EntryAction::Render { output_name } => ActionView::Render {
                output_name: output_name@,
            },
            EntryAction::Copy => ActionView::Copy,
        }
    }
}

/// What is done with the entry `file_name`, found at `path`. A file without
/// an extension is refused with a `LayoutError` that names the path.
pub open spec fn entry_action(path: Seq<char>, file_name: Seq<char>, is_dir: bool) -> Result<
    ActionView,
    ErrorView,
> {
    if is_dir {
        Ok(ActionView::Descend)
    } else {
        match extension(file_name) {
            None => Err(ErrorView::LayoutError { path }),
            Some(found) => if found == template_extension() {
                Ok(ActionView::Render { output_name: stem(file_name) })
            } else {
                Ok(ActionView::Copy)
            },
        }
    }
}

/// Finds the position of the last `.` of a name.
fn find_last_dot(name: &Vec<char>) -> (r: Option<usize>)
    ensures
        match r {
            Some(dot) => dot < name.len() && last_dot(name@, name.len() as int) == dot,
            None => last_dot(name@, name.len() as int) == -1,
        },
{
    let mut n: usize = name.len();
    while n > 0
        invariant
            n <= name.len(),
            last_dot(name@, name.len() as int) == last_dot(name@, n as int),
        decreases n,
    {
        if name[n - 1] == '.' {
            return Some(n - 1);
        }
        n = n - 1;
    }
    None
}

/// Decides what is done with an entry of an application's directory.
pub fn copy_and_template_folder(path: &str, file_name: &str, is_dir: bool) -> (r: Result<
    EntryAction,
    ProcessError,
>)
    ensures
        match entry_action(path@, file_name@, is_dir) {
            Ok(action) => r is Ok && r->Ok_0@ == action,
            Err(e) => r is Err && r->Err_0@ == e,
        },
{
    if is_dir {
        return Ok(EntryAction::Descend);
    }
    let name = to_chars(file_name);
    let dot = match find_last_dot(&name) {
        Some(dot) => dot,
        None => {
            return Err(ProcessError::LayoutError { path: path.to_owned() });
        },
    };
    if dot == 0 || (name.len() == 2 && name[0] == '.' && name[1] == '.') {
        proof {
            if name.len() == 2 && name[0] == '.' && name[1] == '.' {
                assert(name@ =~= seq!['.', '.']);
            }
        }
        return Err(ProcessError::LayoutError { path: path.to_owned() });
    }
    proof {
        reveal_strlit("tera");
        if name@ == seq!['.', '.'] {
            assert(name@.len() == 2 && name@[0] == '.' && name@[1] == '.');
        }
    }
    let ghost found = name@.subrange(dot + 1, name.len() as int);
    let is_template = name.len() - dot == 5 && name[dot + 1] == 't' && name[dot + 2] == 'e'
        && name[dot + 3] == 'r' && name[dot + 4] == 'a';
    proof {
        if is_template {
            assert(found =~= template_extension());
        } else if found == template_extension() {
            assert(found.len() == 4);
            assert(found[0] == 't' && found[1] == 'e' && found[2] == 'r' && found[3] == 'a');
        }
    }
    if is_template {
        let mut output_name = String::new();
        let mut i: usize = 0;
        assert(name@.subrange(0, 0) =~= Seq::<char>::empty());
        while i < dot
            invariant
                i <= dot < name.len(),
                output_name@ == name@.subrange(0, i as int),
            decreases dot - i,
        {
            push_char(&mut output_name, name[i]);
            assert(output_name@ =~= name@.subrange(0, i + 1));
            i = i + 1;
        }
        Ok(EntryAction::Render { output_name })
    } else {
        Ok(EntryAction::Copy)
    }
}

} // verus!
