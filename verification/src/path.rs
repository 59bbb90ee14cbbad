//! Where the map of the song to play is found.
use vstd::prelude::*;
use vstd::string::StringExecFns;

verus! {

/// The folder the map is read from: the folder given on the command line,
/// or `default_folder` when none is given or the one given is `no path`.
pub open spec fn map_folder(arg: Option<Seq<char>>, default_folder: Seq<char>) -> Seq<char> {
    match arg {
        Some(a) => if a == "no path"@ {
            default_folder
        } else {
            a
        },
        None => default_folder,
    }
}

/// The path of the map file inside the folder chosen for the song.
pub fn map_path(arg: Option<String>, default_folder: &str) -> (path: String)
    ensures
        path@ == map_folder(
            match arg {
                Some(a) => Some(a@),
                None => None,
            },
            default_folder@,
        ) + "/Map.txt"@,
        arg matches Some(a) ==> (a@ != "no path"@ ==> path@ == a@ + "/Map.txt"@),
        arg is None ==> path@ == default_folder@ + "/Map.txt"@,
{
    let no_path = "no path".to_owned();
    let mut folder = match arg {
        Some(a) => if a == no_path {
            default_folder.to_owned()
        } else {
            a
        },
        None => default_folder.to_owned(),
    };
    folder.append("/Map.txt");
    folder
}

/// Any folder given other than `no path` is used exactly as given; with
/// none, or `no path`, the default folder is used.
pub proof fn lemma_given_folder_is_used(a: Seq<char>, default_folder: Seq<char>)
    ensures
        a != "no path"@ ==> map_folder(Some(a), default_folder) == a,
        a == "no path"@ ==> map_folder(Some(a), default_folder) == default_folder,
        map_folder(None, default_folder) == default_folder,
{
}

} // verus!
