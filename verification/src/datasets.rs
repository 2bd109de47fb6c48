//! The source dataset files: where each lives once fetched, and the
//! lookup that aborts the build when a required dataset is missing.

use vstd::prelude::*;
use crate::text::str_eq;

verus! {

/// A string with every trailing compressed-archive suffix removed.
pub open spec fn spec_strip_gz(s: Seq<char>) -> Seq<char>
    decreases s.len(),
{
    if s.len() >= 3 && s.subrange(s.len() - 3, s.len() as int) == seq!['.', 'g', 'z'] {
        spec_strip_gz(s.take(s.len() - 3))
    } else {
        s
    }
}

/// One source dataset: its name in the published set, where its archive
/// is kept, and where its extracted rows are kept.
#[derive(Debug, Clone)]
pub struct DatasetFile {
    pub name: &'static str,
    pub gz_path: String,
    pub tsv_path: String,
}

impl DatasetFile {
    /// Places a dataset under the data directory: the archive under its
    /// published name, the extracted rows under that name without its
    /// archive suffix.
    #[verifier::loop_isolation(false)]
    pub fn new(data_dir: &str, name: &'static str) -> (r: Self)
        ensures
            r.name == name,
            r.gz_path@ == data_dir@ + seq!['/'] + name@,
            r.tsv_path@ == data_dir@ + seq!['/'] + spec_strip_gz(name@),
    {
        proof {
            reveal_strlit("/");
        }
        let mut gz_path = String::from_str(data_dir);
        gz_path.append("/");
        gz_path.append(name);
        let mut stem: &str = name;
        while stem.unicode_len() >= 3 && stem.get_char(stem.unicode_len() - 3) == '.' && stem.get_char(
            stem.unicode_len() - 2,
        ) == 'g' && stem.get_char(stem.unicode_len() - 1) == 'z'
            invariant
                spec_strip_gz(stem@) == spec_strip_gz(name@),
            decreases stem@.len(),
        {
            let n = stem.unicode_len();
            let ghost prev = stem@;
            proof {
                assert(prev.subrange(n - 3, n as int) =~= seq!['.', 'g', 'z']);
            }
            stem = stem.substring_char(0, n - 3);
            proof {
                assert(stem@ =~= prev.take(prev.len() - 3));
            }
        }
        proof {
            assert(!(stem@.len() >= 3 && stem@.subrange(stem@.len() - 3, stem@.len() as int)
                == seq!['.', 'g', 'z'])) by {
                if stem@.len() >= 3 {
                    if stem@.subrange(stem@.len() - 3, stem@.len() as int) == seq![
                        '.',
                        'g',
                        'z',
                    ] {
                        assert(stem@[stem@.len() - 3] == '.');
                    }
                }
            }
        }
        let mut tsv_path = String::from_str(data_dir);
        tsv_path.append("/");
        tsv_path.append(stem);
        proof {
            assert(gz_path@ =~= data_dir@ + seq!['/'] + name@);
            assert(tsv_path@ =~= data_dir@ + seq!['/'] + spec_strip_gz(name@));
        }
        DatasetFile { name, gz_path, tsv_path }
    }
}

/// Finds the dataset published under `name`.  A missing required dataset
/// is the error the whole build aborts with.
#[verifier::loop_isolation(false)]
pub fn find_dataset<'a>(files: &'a Vec<DatasetFile>, name: &str) -> (r: Result<
    &'a DatasetFile,
    String,
>)
    ensures
        r matches Ok(f) ==> exists|i: int|
            0 <= i < files@.len() && files@[i].name@ == name@ && *f == files@[i],
        r is Err ==> forall|i: int| 0 <= i < files@.len() ==> (#[trigger] files@[i]).name@ != name@,
{
    let mut i: usize = 0;
    while i < files.len()
        invariant
            0 <= i <= files@.len(),
            forall|j: int| 0 <= j < i ==> (#[trigger] files@[j]).name@ != name@,
        decreases files@.len() - i,
    {
        let f: &DatasetFile = &files[i];
        if str_eq(f.name, name) {
            return Ok(f);
        }
        i = i + 1;
    }
    let mut msg = String::from_str("missing dataset ");
    msg.append(name);
    Err(msg)
}

} // verus!
