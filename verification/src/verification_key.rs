//! The verification key file: how it is named and where it lies. A path is held as the
//! list of its components.

use vstd::prelude::*;
use vstd::string::*;

verus! {

/// The components of a path, as texts.
pub open spec fn components(path: Seq<String>) -> Seq<Seq<char>> {
    Seq::new(path.len(), |i: int| path[i]@)
}

/// The name of the directory that holds a package's outputs.
pub open spec fn outputs_directory_name() -> Seq<char> {
    "outputs"@
}

/// The extension of a verification key file.
pub open spec fn verification_key_file_extension() -> Seq<char> {
    ".lvk"@
}

/// The name of the verification key file of a package.
pub open spec fn file_name(package_name: Seq<char>) -> Seq<char> {
    package_name + verification_key_file_extension()
}

/// Where the verification key file of a package lies, seen from `path`. A path that is
/// no directory is taken to be the file. In a directory the file lies in the outputs
/// directory, which is the directory itself where it is so named.
pub open spec fn file_path(package_name: Seq<char>, path: Seq<Seq<char>>, is_dir: bool) -> Seq<
    Seq<char>,
> {
    if !is_dir {
        path
    } else if path.len() > 0 && path.last() == outputs_directory_name() {
        path.push(file_name(package_name))
    } else {
        path.push(outputs_directory_name()).push(file_name(package_name))
    }
}

/// Whether two paths have the same components.
pub fn same_path(first: &Vec<String>, second: &Vec<String>) -> (same: bool)
    ensures
        same == (components(first@) == components(second@)),
{
    if first.len() != second.len() {
        return false;
    }
    let mut i: usize = 0;
    while i < first.len()
        invariant
            0 <= i <= first.len(),
            first.len() == second.len(),
            forall|j: int| 0 <= j < i ==> first[j]@ == second[j]@,
        decreases first.len() - i,
    {
        if first[i] != second[i] {
            assert(components(first@)[i as int] != components(second@)[i as int]);
            return false;
        }
        i += 1;
    }
    assert(components(first@) =~= components(second@));
    true
}

/// The verification key file of a package.
#[derive(Debug, PartialEq, Eq)]
pub struct VerificationKeyFile {
    pub package_name: String,
}

impl View for VerificationKeyFile {
    type V = Seq<char>;

    open spec fn view(&self) -> Seq<char> {
        self.package_name@
    }
}

impl VerificationKeyFile {
    pub fn new(package_name: &str) -> (file: VerificationKeyFile)
        ensures
            file@ == package_name@,
    {
        VerificationKeyFile { package_name: package_name.to_owned() }
    }

    /// Whether the verification key file exists, seen from `path`: whether the place
    /// where it lies is among the paths that are `present`.
    pub fn exists_at(&self, path: &Vec<String>, is_dir: bool, present: &Vec<Vec<String>>) -> (exists:
        bool)
        ensures
            exists == exists|j: int|
                0 <= j < present.len() && #[trigger] components(present[j]@) == file_path(
                    self@,
                    components(path@),
                    is_dir,
                ),
    {
        let located = self.setup_file_path(path, is_dir);
        let mut i: usize = 0;
        while i < present.len()
            invariant
                0 <= i <= present.len(),
                components(located@) == file_path(self@, components(path@), is_dir),
                forall|j: int|
                    0 <= j < i ==> #[trigger] components(present[j]@) != components(located@),
            decreases present.len() - i,
        {
            if same_path(&present[i], &located) {
                return true;
            }
            i += 1;
        }
        false
    }

    /// Where the verification key file lies, seen from `path`.
    pub fn setup_file_path(&self, path: &Vec<String>, is_dir: bool) -> (located: Vec<String>)
        ensures
            components(located@) == file_path(self@, components(path@), is_dir),
    {
        let mut located: Vec<String> = Vec::new();
        let mut i: usize = 0;
        while i < path.len()
            invariant
                0 <= i <= path.len(),
                located.len() == i,
                forall|j: int| 0 <= j < i ==> located[j]@ == path[j]@,
            decreases path.len() - i,
        {
            located.push(path[i].clone());
            i += 1;
        }
        assert(components(located@) =~= components(path@));
        if is_dir {
            let outputs = String::from_str("outputs");
            let ghost before = components(located@);
            if path.len() == 0 || path[path.len() - 1] != outputs {
                located.push(outputs);
                assert(components(located@) =~= before.push(outputs_directory_name()));
            }
            let ghost inside = components(located@);
            let mut name = self.package_name.clone();
            name.append(".lvk");
            located.push(name);
            assert(components(located@) =~= inside.push(file_name(self@)));
        }
        located
    }
}

} // verus!
