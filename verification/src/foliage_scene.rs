use vstd::prelude::*;

verus! {

/// The file a scene (or config) named `name` is read from inside folder `path`:
/// the two joined as they are.
pub fn foliage_scene_file_path(path: &str, name: &str) -> (file_path: String)
    ensures
        file_path@ == path@ + name@,
{
    let mut file_path = String::from_str(path);
    file_path.append(name);
    file_path
}

} // verus!
