//! Where asset bytes come from: a provider interface, a directory layout, and
//! an in-memory set of assets; and the library's error type.
use crate::table::NamedTable;
use crate::text::{occurs_at, str_starts_with};
use vstd::prelude::*;

verus! {

/// What can go wrong while loading and decoding assets. Outside errors arrive
/// as their messages.
#[derive(Clone, Debug)]
pub enum Error {
    Io(String),
    Json(String),
    Image(String),
    Parse(String),
    InvalidData(String),
}

impl Error {
    /// The error as a line of text (`Invalid data: ...`).
    pub fn message(&self) -> (s: String)
        ensures
            s@ == match self {
                Error::Io(m) => "IO error: "@ + m@,
                Error::Json(m) => "JSON error: "@ + m@,
                Error::Image(m) => "Image error: "@ + m@,
                Error::Parse(m) => "Parse error: "@ + m@,
                Error::InvalidData(m) => "Invalid data: "@ + m@,
            },
    {
        match self {
            Error::Io(m) => String::from_str("IO error: ").concat(m.as_str()),
            Error::Json(m) => String::from_str("JSON error: ").concat(m.as_str()),
            Error::Image(m) => String::from_str("Image error: ").concat(m.as_str()),
            Error::Parse(m) => String::from_str("Parse error: ").concat(m.as_str()),
            Error::InvalidData(m) => String::from_str("Invalid data: ").concat(m.as_str()),
        }
    }
}

/// A source of asset files by path.
pub trait AssetProvider {
    fn load_bytes(&self, path: &str) -> Result<Vec<u8>, Error>;
}

/// `s` without its trailing `/` characters.
pub open spec fn trim_trailing_slashes(s: Seq<char>) -> Seq<char>
    decreases s.len(),
{
    if s.len() > 0 && s.last() == '/' {
        trim_trailing_slashes(s.drop_last())
    } else {
        s
    }
}

/// Assets laid out under a base directory.
#[derive(Clone, Debug)]
pub struct FileAssetProvider {
    pub base_path: String,
}

impl FileAssetProvider {
    /// A provider rooted at `base_path`, kept without trailing slashes.
    pub fn new(base_path: &str) -> (p: FileAssetProvider)
        ensures
            p.base_path@ == trim_trailing_slashes(base_path@),
    {
        let cs = crate::text::chars_of(base_path);
        let mut end: usize = cs.len();
        proof {
            assert(cs@.subrange(0, end as int) =~= cs@);
        }
        while end > 0 && cs[end - 1] == '/'
            invariant
                end <= cs@.len(),
                cs@ == base_path@,
                trim_trailing_slashes(cs@.subrange(0, end as int)) == trim_trailing_slashes(cs@),
            decreases end,
        {
            proof {
                assert(cs@.subrange(0, end as int).drop_last() =~= cs@.subrange(0, end - 1));
            }
            end = end - 1;
        }
        let mut kept: Vec<char> = Vec::new();
        let mut i: usize = 0;
        while i < end
            invariant
                end <= cs@.len(),
                i <= end,
                kept@ == cs@.subrange(0, i as int),
            decreases end - i,
        {
            kept.push(cs[i]);
            i = i + 1;
            proof {
                assert(kept@ =~= cs@.subrange(0, i as int));
            }
        }
        FileAssetProvider { base_path: crate::text::string_from_chars(&kept) }
    }

    /// Where an asset path lies: as given when it already starts with the base
    /// path, else under the base directory.
    pub fn join_path(&self, path: &str) -> (r: String)
        ensures
            r@ == if occurs_at(path@, self.base_path@, 0) {
                path@
            } else {
                self.base_path@ + "/"@ + path@
            },
    {
        if str_starts_with(path, self.base_path.as_str()) {
            return String::from_str(path);
        }
        self.base_path.clone().concat("/").concat(path)
    }
}

/// Assets handed over in memory, by path.
#[derive(Clone, Debug)]
pub struct MemoryAssetProvider {
    pub assets: NamedTable<Vec<u8>>,
}

impl MemoryAssetProvider {
    /// Pair each path with the bytes at the same position; a path given twice
    /// keeps its last bytes. The two lists must be equally long.
    pub fn new(asset_paths: Vec<String>, asset_bytes: Vec<Vec<u8>>) -> (r: Result<
        MemoryAssetProvider,
        Error,
    >)
        ensures
            r is Ok <==> asset_paths@.len() == asset_bytes@.len(),
            r matches Err(e) ==> e is InvalidData,
            r matches Ok(p) ==> {
                &&& p.assets.wf()
                &&& forall|k: Seq<char>| #[trigger]
                    p.assets.has_key(k) <==> exists|i: int|
                        0 <= i < asset_paths@.len() && #[trigger] asset_paths@[i]@ == k
                &&& forall|i: int|
                    0 <= i < asset_paths@.len() && (forall|j: int|
                        i < j < asset_paths@.len() ==> #[trigger] asset_paths@[j]@
                            != asset_paths@[i]@) ==> p.assets.value_of(#[trigger] asset_paths@[i]@)
                        == asset_bytes@[i]
            },
    {
        if asset_paths.len() != asset_bytes.len() {
            return Err(
                Error::InvalidData(String::from_str("asset_paths and asset_bytes length mismatch")),
            );
        }
        let ghost ps = asset_paths@;
        let ghost bs = asset_bytes@;
        let mut paths = asset_paths;
        let mut bytes = asset_bytes;
        let mut t: NamedTable<Vec<u8>> = NamedTable::new();
        while paths.len() > 0
            invariant
                ps.len() == bs.len(),
                paths@.len() == bytes@.len(),
                paths@.len() <= ps.len(),
                paths@ == ps.subrange(0, paths@.len() as int),
                bytes@ == bs.subrange(0, bytes@.len() as int),
                t.wf(),
                forall|k: Seq<char>| #[trigger]
                    t.has_key(k) <==> (exists|i: int|
                        paths@.len() <= i < ps.len() && #[trigger] ps[i]@ == k),
                forall|i: int|
                    paths@.len() <= i < ps.len() && (forall|j: int|
                        i < j < ps.len() ==> #[trigger] ps[j]@ != ps[i]@) ==> t.value_of(
                        #[trigger] ps[i]@,
                    ) == bs[i],
            decreases paths@.len(),
        {
            let ghost m = paths@.len() - 1;
            let p = paths.pop().unwrap();
            let b = bytes.pop().unwrap();
            proof {
                assert(paths@ =~= ps.subrange(0, m));
                assert(bytes@ =~= bs.subrange(0, m));
                assert(p == ps[m]);
                assert(b == bs[m]);
            }
            if !t.contains_key(p.as_str()) {
                let ghost before = t;
                let ghost pv = p@;
                t.insert(p, b);
                proof {
                    assert forall|k: Seq<char>| #[trigger]
                        t.has_key(k) <==> (exists|i: int| m <= i < ps.len() && #[trigger] ps[i]@ == k) by {
                        if k == pv {
                            assert(ps[m]@ == k);
                        }
                        if exists|i: int| m <= i < ps.len() && #[trigger] ps[i]@ == k {
                            let i = choose|i: int| m <= i < ps.len() && #[trigger] ps[i]@ == k;
                            if i != m {
                                assert(before.has_key(k));
                            }
                        }
                    }
                    assert forall|i: int|
                        m <= i < ps.len() && (forall|j: int| i < j < ps.len() ==> #[trigger] ps[j]@
                            != ps[i]@) implies t.value_of(#[trigger] ps[i]@) == bs[i] by {
                        if i != m {
                            assert(before.has_key(ps[i]@));
                            if ps[i]@ == pv {
                                assert(false);
                            }
                        }
                    }
                }
            } else {
                proof {
                    assert forall|k: Seq<char>| #[trigger]
                        t.has_key(k) <==> (exists|i: int| m <= i < ps.len() && #[trigger] ps[i]@ == k) by {
                        if exists|i: int| m <= i < ps.len() && #[trigger] ps[i]@ == k {
                            let i = choose|i: int| m <= i < ps.len() && #[trigger] ps[i]@ == k;
                            if i == m {
                                assert(t.has_key(k));
                            }
                        }
                    }
                    assert forall|i: int|
                        m <= i < ps.len() && (forall|j: int| i < j < ps.len() ==> #[trigger] ps[j]@
                            != ps[i]@) implies t.value_of(#[trigger] ps[i]@) == bs[i] by {
                        if i == m {
                            let j = choose|j: int| m + 1 <= j < ps.len() && #[trigger] ps[j]@ == ps[m]@;
                            assert(ps[j]@ != ps[m]@);
                        }
                    }
                }
            }
        }
        Ok(MemoryAssetProvider { assets: t })
    }

    /// The bytes stored under `path`, or an `InvalidData` error naming the path.
    pub fn get_bytes(&self, path: &str) -> (r: Result<Vec<u8>, Error>)
        ensures
            r is Ok <==> self.assets.has_key(path@),
            r matches Ok(b) ==> self.assets.wf() ==> b@ == self.assets.value_of(path@)@,
            r matches Err(e) ==> e matches Error::InvalidData(m) && m@ == "Asset not provided: "@
                + path@,
    {
        match self.assets.position(path) {
            Some(k) => {
                proof {
                    if self.assets.wf() {
                        self.assets.lemma_index_of(k as int);
                    }
                }
                let b = &self.assets.entries[k].1;
                let mut out: Vec<u8> = Vec::new();
                let mut i: usize = 0;
                while i < b.len()
                    invariant
                        i <= b@.len(),
                        out@ == b@.subrange(0, i as int),
                    decreases b.len() - i,
                {
                    out.push(b[i]);
                    i = i + 1;
                    proof {
                        assert(out@ =~= b@.subrange(0, i as int));
                    }
                }
                proof {
                    assert(out@ =~= b@);
                }
                Ok(out)
            },
            None => Err(Error::InvalidData(String::from_str("Asset not provided: ").concat(path))),
        }
    }
}

impl AssetProvider for MemoryAssetProvider {
    fn load_bytes(&self, path: &str) -> Result<Vec<u8>, Error> {
        self.get_bytes(path)
    }
}

} // verus!
