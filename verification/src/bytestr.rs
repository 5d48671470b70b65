//! Byte-string helpers: the fixed names the pipeline uses, path joining,
//! container naming, the loader download URL, and deriving a filename from
//! a URL's last path segment.
//!
//! Paths and URLs are byte strings (`Vec<u8>`); their mathematical model is
//! `Seq<u8>`.
use vstd::prelude::*;

verus! {

/// The byte `b'/'`.
pub const SLASH: u8 = 47;

/// The byte `b'?'`, which ends a URL's path and starts its query.
pub const QUERY_MARK: u8 = 63;

/// The byte `b'#'`, which ends a URL's path and starts its fragment.
pub const FRAGMENT_MARK: u8 = 35;

/// Bytes of `"https://meta.fabricmc.net/v2/versions/loader/"`.
pub open spec fn bytes_loader_base() -> Seq<u8> {
    seq![104u8, 116u8, 116u8, 112u8, 115u8, 58u8, 47u8, 47u8, 109u8, 101u8, 116u8, 97u8, 46u8, 102u8, 97u8, 98u8, 114u8, 105u8, 99u8, 109u8, 99u8, 46u8, 110u8, 101u8, 116u8, 47u8, 118u8, 50u8, 47u8, 118u8, 101u8, 114u8, 115u8, 105u8, 111u8, 110u8, 115u8, 47u8, 108u8, 111u8, 97u8, 100u8, 101u8, 114u8, 47u8]
}

pub fn loader_base() -> (r: Vec<u8>)
    ensures
        r@ == bytes_loader_base(),
{
    vec![104u8, 116u8, 116u8, 112u8, 115u8, 58u8, 47u8, 47u8, 109u8, 101u8, 116u8, 97u8, 46u8, 102u8, 97u8, 98u8, 114u8, 105u8, 99u8, 109u8, 99u8, 46u8, 110u8, 101u8, 116u8, 47u8, 118u8, 50u8, 47u8, 118u8, 101u8, 114u8, 115u8, 105u8, 111u8, 110u8, 115u8, 47u8, 108u8, 111u8, 97u8, 100u8, 101u8, 114u8, 47u8]
}

/// Bytes of `"/server/jar"`.
pub open spec fn bytes_loader_tail() -> Seq<u8> {
    seq![47u8, 115u8, 101u8, 114u8, 118u8, 101u8, 114u8, 47u8, 106u8, 97u8, 114u8]
}

pub fn loader_tail() -> (r: Vec<u8>)
    ensures
        r@ == bytes_loader_tail(),
{
    vec![47u8, 115u8, 101u8, 114u8, 118u8, 101u8, 114u8, 47u8, 106u8, 97u8, 114u8]
}

/// Bytes of `".7z"`.
pub open spec fn bytes_container_ext() -> Seq<u8> {
    seq![46u8, 55u8, 122u8]
}

pub fn container_ext() -> (r: Vec<u8>)
    ensures
        r@ == bytes_container_ext(),
{
    vec![46u8, 55u8, 122u8]
}

/// Bytes of `"tmp.bin"`.
pub open spec fn bytes_fallback_name() -> Seq<u8> {
    seq![116u8, 109u8, 112u8, 46u8, 98u8, 105u8, 110u8]
}

pub fn fallback_name() -> (r: Vec<u8>)
    ensures
        r@ == bytes_fallback_name(),
{
    vec![116u8, 109u8, 112u8, 46u8, 98u8, 105u8, 110u8]
}

/// Bytes of `"eula.txt"`.
pub open spec fn bytes_license_name() -> Seq<u8> {
    seq![101u8, 117u8, 108u8, 97u8, 46u8, 116u8, 120u8, 116u8]
}

pub fn license_name() -> (r: Vec<u8>)
    ensures
        r@ == bytes_license_name(),
{
    vec![101u8, 117u8, 108u8, 97u8, 46u8, 116u8, 120u8, 116u8]
}

/// Bytes of `"eula=true"`.
pub open spec fn bytes_license_content() -> Seq<u8> {
    seq![101u8, 117u8, 108u8, 97u8, 61u8, 116u8, 114u8, 117u8, 101u8]
}

pub fn license_content() -> (r: Vec<u8>)
    ensures
        r@ == bytes_license_content(),
{
    vec![101u8, 117u8, 108u8, 97u8, 61u8, 116u8, 114u8, 117u8, 101u8]
}

/// Bytes of `"fabric.jar"`.
pub open spec fn bytes_loader_jar_name() -> Seq<u8> {
    seq![102u8, 97u8, 98u8, 114u8, 105u8, 99u8, 46u8, 106u8, 97u8, 114u8]
}

pub fn loader_jar_name() -> (r: Vec<u8>)
    ensures
        r@ == bytes_loader_jar_name(),
{
    vec![102u8, 97u8, 98u8, 114u8, 105u8, 99u8, 46u8, 106u8, 97u8, 114u8]
}

/// Bytes of `"server"`.
pub open spec fn bytes_server_dir() -> Seq<u8> {
    seq![115u8, 101u8, 114u8, 118u8, 101u8, 114u8]
}

pub fn server_dir() -> (r: Vec<u8>)
    ensures
        r@ == bytes_server_dir(),
{
    vec![115u8, 101u8, 114u8, 118u8, 101u8, 114u8]
}

/// Bytes of `"client"`.
pub open spec fn bytes_client_dir() -> Seq<u8> {
    seq![99u8, 108u8, 105u8, 101u8, 110u8, 116u8]
}

pub fn client_dir() -> (r: Vec<u8>)
    ensures
        r@ == bytes_client_dir(),
{
    vec![99u8, 108u8, 105u8, 101u8, 110u8, 116u8]
}

/// Bytes of `"mods"`.
pub open spec fn bytes_mods_dir() -> Seq<u8> {
    seq![109u8, 111u8, 100u8, 115u8]
}

pub fn mods_dir() -> (r: Vec<u8>)
    ensures
        r@ == bytes_mods_dir(),
{
    vec![109u8, 111u8, 100u8, 115u8]
}

/// Bytes of `"download"`.
pub open spec fn bytes_staging_dir() -> Seq<u8> {
    seq![100u8, 111u8, 119u8, 110u8, 108u8, 111u8, 97u8, 100u8]
}

pub fn staging_dir() -> (r: Vec<u8>)
    ensures
        r@ == bytes_staging_dir(),
{
    vec![100u8, 111u8, 119u8, 110u8, 108u8, 111u8, 97u8, 100u8]
}

/// Bytes of `"java"`.
pub open spec fn bytes_launch_program() -> Seq<u8> {
    seq![106u8, 97u8, 118u8, 97u8]
}

pub fn launch_program() -> (r: Vec<u8>)
    ensures
        r@ == bytes_launch_program(),
{
    vec![106u8, 97u8, 118u8, 97u8]
}

/// Bytes of `"-Xmx2G"`.
pub open spec fn bytes_arg_memory() -> Seq<u8> {
    seq![45u8, 88u8, 109u8, 120u8, 50u8, 71u8]
}

pub fn arg_memory() -> (r: Vec<u8>)
    ensures
        r@ == bytes_arg_memory(),
{
    vec![45u8, 88u8, 109u8, 120u8, 50u8, 71u8]
}

/// Bytes of `"-jar"`.
pub open spec fn bytes_arg_jar() -> Seq<u8> {
    seq![45u8, 106u8, 97u8, 114u8]
}

pub fn arg_jar() -> (r: Vec<u8>)
    ensures
        r@ == bytes_arg_jar(),
{
    vec![45u8, 106u8, 97u8, 114u8]
}

/// Bytes of `"nogui"`.
pub open spec fn bytes_arg_headless() -> Seq<u8> {
    seq![110u8, 111u8, 103u8, 117u8, 105u8]
}

pub fn arg_headless() -> (r: Vec<u8>)
    ensures
        r@ == bytes_arg_headless(),
{
    vec![110u8, 111u8, 103u8, 117u8, 105u8]
}

/// Bytes of `"server"`.
pub open spec fn bytes_arg_mode() -> Seq<u8> {
    seq![115u8, 101u8, 114u8, 118u8, 101u8, 114u8]
}

pub fn arg_mode() -> (r: Vec<u8>)
    ensures
        r@ == bytes_arg_mode(),
{
    vec![115u8, 101u8, 114u8, 118u8, 101u8, 114u8]
}

/// `dir ++ "/" ++ name`.
pub open spec fn spec_join(dir: Seq<u8>, name: Seq<u8>) -> Seq<u8> {
    dir + seq![SLASH] + name
}

/// Append `src` to `dst`.
pub fn append_bytes(dst: &mut Vec<u8>, src: &Vec<u8>)
    ensures
        final(dst)@ == old(dst)@ + src@,
{
    let mut i: usize = 0;
    while i < src.len()
        invariant
            i <= src.len(),
            dst@ == old(dst)@ + src@.subrange(0, i as int),
        decreases src.len() - i,
    {
        dst.push(src[i]);
        i = i + 1;
        assert(old(dst)@ + src@.subrange(0, i - 1 as int) + seq![src@[i - 1]] == old(
            dst,
        )@ + src@.subrange(0, i as int));
    }
    assert(src@.subrange(0, src@.len() as int) == src@);
}

/// Join a directory path and an entry name with a single separator.
pub fn join_path(dir: &Vec<u8>, name: &Vec<u8>) -> (r: Vec<u8>)
    ensures
        r@ == spec_join(dir@, name@),
{
    let mut r: Vec<u8> = Vec::new();
    append_bytes(&mut r, dir);
    r.push(SLASH);
    append_bytes(&mut r, name);
    assert(r@ == spec_join(dir@, name@));
    r
}

/// The container produced from a tree: the tree's own path with the fixed
/// container extension appended, a sibling of the tree.
pub open spec fn spec_container_path(tree: Seq<u8>) -> Seq<u8> {
    tree + bytes_container_ext()
}

/// Name the compressed container that archiving `tree` produces.
pub fn container_path(tree: &Vec<u8>) -> (r: Vec<u8>)
    ensures
        r@ == spec_container_path(tree@),
{
    let mut r: Vec<u8> = Vec::new();
    append_bytes(&mut r, tree);
    let ext = container_ext();
    append_bytes(&mut r, &ext);
    assert(r@ == spec_container_path(tree@));
    r
}

/// The loader download URL, a deterministic function of the runtime version,
/// loader kind and launcher channel.
pub open spec fn spec_loader_url(version: Seq<u8>, loader: Seq<u8>, channel: Seq<u8>) -> Seq<u8> {
    bytes_loader_base() + version + seq![SLASH] + loader + seq![SLASH] + channel
        + bytes_loader_tail()
}

/// Build the loader download URL from the three build-info fields.
pub fn loader_url(version: &Vec<u8>, loader: &Vec<u8>, channel: &Vec<u8>) -> (r: Vec<u8>)
    ensures
        r@ == spec_loader_url(version@, loader@, channel@),
{
    let mut r = loader_base();
    append_bytes(&mut r, version);
    r.push(SLASH);
    append_bytes(&mut r, loader);
    r.push(SLASH);
    append_bytes(&mut r, channel);
    let tail = loader_tail();
    append_bytes(&mut r, &tail);
    assert(r@ == spec_loader_url(version@, loader@, channel@));
    r
}

/// First index `>= from` whose byte is `c`.
pub open spec fn find_from(u: Seq<u8>, from: int, c: u8) -> Option<int>
    decreases u.len() - from
        when 0 <= from <= u.len()
{
    if from >= u.len() {
        None
    } else if u[from] == c {
        Some(from)
    } else {
        find_from(u, from + 1, c)
    }
}

/// First index `>= from` whose byte is `c1` or `c2`.
pub open spec fn find_from_either(u: Seq<u8>, from: int, c1: u8, c2: u8) -> Option<int>
    decreases u.len() - from
        when 0 <= from <= u.len()
{
    if from >= u.len() {
        None
    } else if u[from] == c1 || u[from] == c2 {
        Some(from)
    } else {
        find_from_either(u, from + 1, c1, c2)
    }
}

/// Last index `< hi` whose byte is `c`.
pub open spec fn rfind_below(u: Seq<u8>, hi: int, c: u8) -> Option<int>
    decreases hi
        when 0 <= hi <= u.len()
{
    if hi <= 0 {
        None
    } else if u[hi - 1] == c {
        Some(hi - 1)
    } else {
        rfind_below(u, hi - 1, c)
    }
}

/// Find the first occurrence of `c` at or after `from`.
pub fn find_byte_from(u: &Vec<u8>, from: usize, c: u8) -> (r: Option<usize>)
    requires
        from <= u@.len(),
    ensures
        match r {
            Some(i) => find_from(u@, from as int, c) == Some(i as int),
            None => find_from(u@, from as int, c) is None,
        },
{
    let mut i: usize = from;
    while i < u.len()
        invariant
            from <= i <= u@.len(),
            find_from(u@, from as int, c) == find_from(u@, i as int, c),
        decreases u@.len() - i,
    {
        if u[i] == c {
            return Some(i);
        }
        i = i + 1;
    }
    None
}

/// Find the first occurrence of `c1` or `c2` at or after `from`.
pub fn find_byte_from_either(u: &Vec<u8>, from: usize, c1: u8, c2: u8) -> (r: Option<usize>)
    requires
        from <= u@.len(),
    ensures
        match r {
            Some(i) => find_from_either(u@, from as int, c1, c2) == Some(i as int),
            None => find_from_either(u@, from as int, c1, c2) is None,
        },
{
    let mut i: usize = from;
    while i < u.len()
        invariant
            from <= i <= u@.len(),
            find_from_either(u@, from as int, c1, c2) == find_from_either(u@, i as int, c1, c2),
        decreases u@.len() - i,
    {
        if u[i] == c1 || u[i] == c2 {
            return Some(i);
        }
        i = i + 1;
    }
    None
}

/// Find the last occurrence of `c` strictly before `hi`.
pub fn rfind_byte_below(u: &Vec<u8>, hi: usize, c: u8) -> (r: Option<usize>)
    requires
        hi <= u@.len(),
    ensures
        match r {
            Some(i) => rfind_below(u@, hi as int, c) == Some(i as int),
            None => rfind_below(u@, hi as int, c) is None,
        },
{
    let mut i: usize = hi;
    while i > 0
        invariant
            i <= hi <= u@.len(),
            rfind_below(u@, hi as int, c) == rfind_below(u@, i as int, c),
        decreases i,
    {
        if u[i - 1] == c {
            return Some(i - 1);
        }
        i = i - 1;
    }
    None
}

/// Copy out `u[lo..hi]`.
pub fn subvec(u: &Vec<u8>, lo: usize, hi: usize) -> (r: Vec<u8>)
    requires
        lo <= hi <= u@.len(),
    ensures
        r@ == u@.subrange(lo as int, hi as int),
{
    let mut r: Vec<u8> = Vec::new();
    let mut i: usize = lo;
    while i < hi
        invariant
            lo <= i <= hi <= u@.len(),
            r@ == u@.subrange(lo as int, i as int),
        decreases hi - i,
    {
        r.push(u[i]);
        i = i + 1;
        assert(u@.subrange(lo as int, i - 1 as int).push(u@[i - 1]) == u@.subrange(
            lo as int,
            i as int,
        ));
    }
    r
}

/// The bounds `(start, end)` of a URL's path: the path begins at the first
/// slash after the `"//"` that follows the scheme, and ends at the first
/// query or fragment marker after it, if any.  `None` when the URL has no
/// such authority form or no slash after the authority (no path segments).
pub open spec fn spec_path_bounds(u: Seq<u8>) -> Option<(int, int)> {
    match find_from(u, 0, SLASH) {
        None => None,
        Some(i1) => if i1 + 1 < u.len() && u[i1 + 1] == SLASH {
            match find_from(u, i1 + 2, SLASH) {
                None => None,
                Some(ps) => {
                    let pe = match find_from_either(u, ps, QUERY_MARK, FRAGMENT_MARK) {
                        Some(e) => e,
                        None => u.len() as int,
                    };
                    Some((ps, pe))
                },
            }
        } else {
            None
        },
    }
}

/// The filename derived from a URL: its last path segment, or the fixed
/// fallback name when the URL has no path segments or the last one is empty.
pub open spec fn spec_url_filename(u: Seq<u8>) -> Seq<u8> {
    match spec_path_bounds(u) {
        None => bytes_fallback_name(),
        Some((ps, pe)) => {
            let seg = match rfind_below(u, pe, SLASH) {
                Some(ls) => u.subrange(ls + 1, pe),
                None => u.subrange(ps, pe),
            };
            if seg.len() == 0 {
                bytes_fallback_name()
            } else {
                seg
            }
        },
    }
}

/// `find_from` never answers below `from` nor past the end.
proof fn lemma_find_from_bounds(u: Seq<u8>, from: int, c: u8)
    requires
        0 <= from <= u.len(),
        find_from(u, from, c) is Some,
    ensures
        from <= find_from(u, from, c)->0 < u.len(),
        u[find_from(u, from, c)->0] == c,
    decreases u.len() - from,
{
    if from >= u.len() {
    } else if u[from] == c {
    } else {
        lemma_find_from_bounds(u, from + 1, c);
    }
}

/// `find_from_either` never answers below `from` nor past the end.
proof fn lemma_find_from_either_bounds(u: Seq<u8>, from: int, c1: u8, c2: u8)
    requires
        0 <= from <= u.len(),
        find_from_either(u, from, c1, c2) is Some,
    ensures
        from <= find_from_either(u, from, c1, c2)->0 < u.len(),
    decreases u.len() - from,
{
    if from >= u.len() {
    } else if u[from] == c1 || u[from] == c2 {
    } else {
        lemma_find_from_either_bounds(u, from + 1, c1, c2);
    }
}

/// `rfind_below` answers strictly below `hi`.
proof fn lemma_rfind_below_bounds(u: Seq<u8>, hi: int, c: u8)
    requires
        0 <= hi <= u.len(),
        rfind_below(u, hi, c) is Some,
    ensures
        0 <= rfind_below(u, hi, c)->0 < hi,
    decreases hi,
{
    if hi <= 0 {
    } else if u[hi - 1] == c {
    } else {
        lemma_rfind_below_bounds(u, hi - 1, c);
    }
}

/// Derive the filename for a fetched artifact: the explicitly requested name
/// when one is given, else the last path segment of the final URL, else the
/// fixed fallback name.
pub fn derive_filename(explicit: Option<Vec<u8>>, url: &Vec<u8>) -> (r: Vec<u8>)
    ensures
        match explicit {
            Some(name) => r@ == name@,
            None => r@ == spec_url_filename(url@),
        },
{
    match explicit {
        Some(name) => name,
        None => url_filename(url),
    }
}

/// Derive a filename from a URL's last path segment, with the fixed fallback.
pub fn url_filename(url: &Vec<u8>) -> (r: Vec<u8>)
    ensures
        r@ == spec_url_filename(url@),
{
    match find_byte_from(url, 0, SLASH) {
        None => fallback_name(),
        Some(i1) => {
            proof {
                lemma_find_from_bounds(url@, 0, SLASH);
            }
            let n = url.len();
            assert(i1 < url@.len());
            if i1 + 1 < n && url[i1 + 1] == SLASH {
                match find_byte_from(url, i1 + 2, SLASH) {
                    None => fallback_name(),
                    Some(ps) => {
                        proof {
                            lemma_find_from_bounds(url@, i1 + 2, SLASH);
                        }
                        let pe = match find_byte_from_either(url, ps, QUERY_MARK, FRAGMENT_MARK) {
                            Some(e) => {
                                proof {
                                    lemma_find_from_either_bounds(
                                        url@,
                                        ps as int,
                                        QUERY_MARK,
                                        FRAGMENT_MARK,
                                    );
                                }
                                e
                            },
                            None => url.len(),
                        };
                        let seg = match rfind_byte_below(url, pe, SLASH) {
                            Some(ls) => {
                                proof {
                                    lemma_rfind_below_bounds(url@, pe as int, SLASH);
                                }
                                subvec(url, ls + 1, pe)
                            },
                            None => subvec(url, ps, pe),
                        };
                        if seg.len() == 0 {
                            fallback_name()
                        } else {
                            seg
                        }
                    },
                }
            } else {
                fallback_name()
            }
        },
    }
}

} // verus!
