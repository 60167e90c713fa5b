//! Where the model cache lives on disk. Paths are Unix paths held as text;
//! the home directory is handed in by the caller, which reads `HOME`.
use vstd::prelude::*;
use crate::text::push_char;

verus! {

/// `base` extended by `comp` as `PathBuf::push` does on Unix: an absolute
/// `comp` replaces `base`; otherwise a `/` is put between the two unless
/// `base` is empty or already ends in one.
pub open spec fn join_path(base: Seq<char>, comp: Seq<char>) -> Seq<char> {
    if comp.len() > 0 && comp[0] == '/' {
        comp
    } else if base.len() == 0 || base.last() == '/' {
        base + comp
    } else {
        base.push('/') + comp
    }
}

/// `s` with every `/` replaced by `__`, as `str::replace('/', "__")` gives it.
pub open spec fn slashes_replaced(s: Seq<char>) -> Seq<char>
    decreases s.len(),
{
    if s.len() == 0 {
        Seq::empty()
    } else if s.last() == '/' {
        slashes_replaced(s.drop_last()) + seq!['_', '_']
    } else {
        slashes_replaced(s.drop_last()).push(s.last())
    }
}

/// The tool's own cache directory under a home directory: `<home>/.cache/ssrs`.
pub open spec fn dirs_spec(home: Option<Seq<char>>) -> Option<Seq<char>> {
    match home {
        Some(h) => Some(join_path(join_path(h, ".cache"@), "ssrs"@)),
        None => None,
    }
}

/// The cache directory, or `.` when there is no home directory.
pub open spec fn cache_base_spec(home: Option<Seq<char>>) -> Seq<char> {
    match dirs_spec(home) {
        Some(d) => d,
        None => "."@,
    }
}

/// The directory that holds the manifest: `<cache>/models`.
pub open spec fn manifest_dir_spec(home: Option<Seq<char>>) -> Seq<char> {
    join_path(cache_base_spec(home), "models"@)
}

/// The manifest file: `<cache>/models/models.json`.
pub open spec fn manifest_path_spec(home: Option<Seq<char>>) -> Seq<char> {
    join_path(manifest_dir_spec(home), "models.json"@)
}

/// The directory of one model: `<cache>/<model id with / replaced by __>`.
pub open spec fn model_cache_dir_spec(home: Option<Seq<char>>, model_id: Seq<char>) -> Seq<char> {
    join_path(cache_base_spec(home), slashes_replaced(model_id))
}

pub open spec fn opt_view(o: Option<&str>) -> Option<Seq<char>> {
    match o {
        Some(s) => Some(s@),
        None => None,
    }
}

/// A replaced id holds no `/`, so it never turns into an absolute path.
pub proof fn lemma_slashes_replaced_has_no_slash(s: Seq<char>)
    ensures
        forall|i: int| 0 <= i < slashes_replaced(s).len() ==> slashes_replaced(s)[i] != '/',
    decreases s.len(),
{
    if s.len() > 0 {
        let p = slashes_replaced(s.drop_last());
        lemma_slashes_replaced_has_no_slash(s.drop_last());
        assert forall|i: int| 0 <= i < slashes_replaced(s).len() implies slashes_replaced(s)[i]
            != '/' by {
            if i < p.len() {
                assert(slashes_replaced(s)[i] == p[i]);
            }
        }
    }
}

/// `base` extended by `comp`, as `Path::join` gives it on Unix.
pub fn join_path_exec(base: &str, comp: &str) -> (r: String)
    ensures
        r@ == join_path(base@, comp@),
{
    let clen = comp.unicode_len();
    if clen > 0 && comp.get_char(0) == '/' {
        return String::from_str(comp);
    }
    let blen = base.unicode_len();
    let mut r = String::from_str(base);
    if blen > 0 && base.get_char(blen - 1) != '/' {
        push_char(&mut r, '/');
    }
    r.append(comp);
    r
}

/// `s` with every `/` replaced by `__`.
pub fn replace_slashes(s: &str) -> (r: String)
    ensures
        r@ == slashes_replaced(s@),
{
    let n = s.unicode_len();
    let mut r = String::new();
    let mut i: usize = 0;
    while i < n
        invariant
            i <= n,
            n == s@.len(),
            r@ == slashes_replaced(s@.subrange(0, i as int)),
        decreases n - i,
    {
        let c = s.get_char(i);
        assert(s@.subrange(0, i + 1).drop_last() =~= s@.subrange(0, i as int));
        if c == '/' {
            push_char(&mut r, '_');
            push_char(&mut r, '_');
            assert(r@ =~= slashes_replaced(s@.subrange(0, i + 1)));
        } else {
            push_char(&mut r, c);
        }
        i = i + 1;
    }
    assert(s@.subrange(0, n as int) =~= s@);
    r
}

/// The tool's cache directory under `home` (read from `HOME` by the caller),
/// or `None` when there is no home directory.
pub fn dirs(home: Option<&str>) -> (r: Option<String>)
    ensures
        match r {
            Some(d) => dirs_spec(opt_view(home)) == Some(d@),
            None => dirs_spec(opt_view(home)) is None,
        },
{
    match home {
        Some(h) => {
            let c = join_path_exec(h, ".cache");
            Some(join_path_exec(c.as_str(), "ssrs"))
        },
        None => None,
    }
}

/// The cache directory, falling back to the working directory.
pub fn cache_base(home: Option<&str>) -> (r: String)
    ensures
        r@ == cache_base_spec(opt_view(home)),
{
    match dirs(home) {
        Some(d) => d,
        None => String::from_str("."),
    }
}

/// The directory that holds the manifest of downloaded models.
pub fn manifest_dir(home: Option<&str>) -> (r: String)
    ensures
        r@ == manifest_dir_spec(opt_view(home)),
{
    let base = cache_base(home);
    join_path_exec(base.as_str(), "models")
}

/// The manifest file of downloaded models.
pub fn manifest_path(home: Option<&str>) -> (r: String)
    ensures
        r@ == manifest_path_spec(opt_view(home)),
{
    let dir = manifest_dir(home);
    join_path_exec(dir.as_str(), "models.json")
}

/// The directory where the files of `model_id` are kept.
pub fn model_cache_dir(home: Option<&str>, model_id: &str) -> (r: String)
    ensures
        r@ == model_cache_dir_spec(opt_view(home), model_id@),
{
    let base = cache_base(home);
    let name = replace_slashes(model_id);
    join_path_exec(base.as_str(), name.as_str())
}

/// A model's directory sits directly in the cache directory, named by the
/// model id with every `/` replaced by `__`, so ids never reach outside it.
pub proof fn law_model_dir_in_cache(home: Option<Seq<char>>, model_id: Seq<char>)
    ensures
        cache_base_spec(home).len() > 0,
        forall|i: int|
            0 <= i < slashes_replaced(model_id).len() ==> #[trigger] slashes_replaced(model_id)[i]
                != '/',
        model_cache_dir_spec(home, model_id) == if cache_base_spec(home).last() == '/' {
            cache_base_spec(home) + slashes_replaced(model_id)
        } else {
            cache_base_spec(home).push('/') + slashes_replaced(model_id)
        },
{
    reveal_strlit(".");
    reveal_strlit("ssrs");
    lemma_slashes_replaced_has_no_slash(model_id);
    if slashes_replaced(model_id).len() > 0 {
        assert(slashes_replaced(model_id)[0] != '/');
    }
}

} // verus!
