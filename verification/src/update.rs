//! Release checks: version parsing, "is newer", the trusted download URL, the
//! choice of a release asset, and the pre-checks of an in-place replace.

use vstd::prelude::*;

use crate::text::{
    after_first, after_last, after_last_chars, before_first, chars_of, contains_seq, ends_with,
    find_first, has_char, has_prefix, has_sub, has_suffix, index_of, is_whitespace, lemma_before_first_concat,
    lemma_find_first_bounds, lemma_find_first_concat, lemma_occurrences_after_first,
    lemma_trim_end_concat, lemma_trim_end_prefix, occurrences, slice_chars, same_text, starts_with,
    strip_leading, strip_leading_chars, trim, trim_bounds, trim_chars, trim_end, trim_start,
};

verus! {

/// Where this project's release assets are downloaded from.
pub const ZIP_PREFIX: &'static str = "https://github.com/EssekerDev/NetFlash/releases/download/";

/// Name of the application bundle.
pub const APP_BUNDLE: &'static str = "NetFlash.app";

/// Release assets are named `NetFlash-<version>-macos.zip`.
pub const ASSET_PREFIX: &'static str = "NetFlash-";

/// Release assets are named `NetFlash-<version>-macos.zip`.
pub const ASSET_SUFFIX: &'static str = "-macos.zip";

/// An ASCII decimal digit.
pub open spec fn is_digit(c: char) -> bool {
    '0' <= c && c <= '9'
}

/// Decimal value of a string of digits.
pub open spec fn decimal(s: Seq<char>) -> nat
    decreases s.len(),
{
    if s.len() == 0 {
        0
    } else {
        decimal(s.drop_last()) * 10 + ((s.last() as nat) - 48) as nat
    }
}

/// The text after an optional leading `+`.
pub open spec fn unsigned_digits(s: Seq<char>) -> Seq<char> {
    if s.len() > 0 && s[0] == '+' {
        s.drop_first()
    } else {
        s
    }
}

/// Every character is an ASCII digit.
pub open spec fn all_digits(d: Seq<char>) -> bool {
    forall|i: int| 0 <= i < d.len() ==> is_digit(#[trigger] d[i])
}

/// `str::parse::<u32>`: an optional `+`, then one or more ASCII digits whose
/// value fits in `u32`.
pub open spec fn parse_u32(s: Seq<char>) -> Option<u32> {
    let d = unsigned_digits(s);
    if d.len() == 0 || !all_digits(d) || decimal(d) > u32::MAX {
        None
    } else {
        Some(decimal(d) as u32)
    }
}

/// The version text: trimmed, then leading `v`s, then leading `V`s removed.
pub open spec fn version_text(s: Seq<char>) -> Seq<char> {
    strip_leading(strip_leading(trim(s), 'v'), 'V')
}

/// One dotted field: the text up to the next `.`, cut at its first `-`, parsed.
pub open spec fn version_field(part: Seq<char>) -> Option<u32> {
    parse_u32(before_first(before_first(part, '.'), '-'))
}

/// `v1.2.3` / `1.2.3` -> `(1, 2, 3)`: three dotted fields, each cut at its
/// first `-`; anything after the third field is ignored.
pub open spec fn parse_version_spec(s: Seq<char>) -> Option<(u32, u32, u32)> {
    let t = version_text(s);
    match after_first(t, '.') {
        None => None,
        Some(r1) => match after_first(r1, '.') {
            None => None,
            Some(r2) => match (version_field(t), version_field(r1), version_field(r2)) {
                (Some(a), Some(b), Some(c)) => Some((a, b, c)),
                _ => None,
            },
        },
    }
}

/// Lexicographic order on versions.
pub open spec fn version_gt(a: (u32, u32, u32), b: (u32, u32, u32)) -> bool {
    a.0 > b.0 || (a.0 == b.0 && (a.1 > b.1 || (a.1 == b.1 && a.2 > b.2)))
}

/// `remote` parses, `local` parses, and `remote` is strictly newer.
pub open spec fn newer_spec(remote: Seq<char>, local: Seq<char>) -> bool {
    match (parse_version_spec(remote), parse_version_spec(local)) {
        (Some(r), Some(l)) => version_gt(r, l),
        _ => false,
    }
}

/// A download URL of this repository's release assets, with nothing that could
/// smuggle a query, fragment, escape, line break or parent directory, naming a
/// `NetFlash-*-macos.zip` file.
pub open spec fn trusted_zip_url(url: Seq<char>) -> bool {
    let t = trim(url);
    let name = after_last(t, '/');
    &&& starts_with(t, ZIP_PREFIX@)
    &&& !t.contains('?')
    &&& !t.contains('#')
    &&& !t.contains('\\')
    &&& !t.contains('\n')
    &&& !t.contains('\r')
    &&& !contains_seq(t, seq!['.', '.'])
    &&& starts_with(name, ASSET_PREFIX@)
    &&& ends_with(name, ASSET_SUFFIX@)
}

/// `parse_u32` on a character vector.
fn parse_u32_chars(s: &Vec<char>) -> (r: Option<u32>)
    ensures
        r == parse_u32(s@),
{
    let n = s.len();
    let start: usize = if n > 0 && s[0] == '+' { 1 } else { 0 };
    let ghost d = unsigned_digits(s@);
    if start == n {
        return None;
    }
    let mut acc: u64 = 0;
    let mut i = start;
    while i < n
        invariant
            start <= i <= n,
            n == s@.len(),
            d == s@.subrange(start as int, n as int),
            d == unsigned_digits(s@),
            forall|k: int| 0 <= k < i - start ==> is_digit(#[trigger] d[k]),
            acc == if decimal(d.take(i - start)) > u32::MAX { 0x1_0000_0000 } else { decimal(
                d.take(i - start),
            ) },
        decreases n - i,
    {
        let c = s[i];
        if !('0' <= c && c <= '9') {
            assert(d[i - start] == c);
            assert(!is_digit(d[i - start]));
            assert(!all_digits(d));
            return None;
        }
        let dv = (c as u32 - 48) as u64;
        proof {
            let pre = d.take(i - start);
            let post = d.take(i + 1 - start);
            assert(post.drop_last() =~= pre);
            assert(post.last() == c);
            assert(decimal(post) == decimal(pre) * 10 + dv);
            if decimal(pre) > u32::MAX {
                assert(decimal(pre) * 10 + dv > u32::MAX) by (nonlinear_arith)
                    requires decimal(pre) > u32::MAX;
            }
        }
        let next = acc * 10 + dv;
        acc = if next > 0xFFFF_FFFF { 0x1_0000_0000 } else { next };
        i = i + 1;
    }
    proof {
        assert(d.take(n - start) =~= d);
        assert(d.len() > 0);
        assert(all_digits(d));
    }
    if acc > 0xFFFF_FFFF {
        None
    } else {
        Some(acc as u32)
    }
}

/// The field before the next `.`, cut at `-`, parsed.
fn version_field_chars(part: &Vec<char>) -> (r: Option<u32>)
    ensures
        r == version_field(part@),
{
    let dot = index_of(part, '.');
    proof {
        lemma_find_first_bounds(part@, '.');
    }
    let field = slice_chars(part, 0, dot);
    let dash = index_of(&field, '-');
    proof {
        lemma_find_first_bounds(field@, '-');
    }
    let num = slice_chars(&field, 0, dash);
    assert(field@ =~= before_first(part@, '.'));
    assert(num@ =~= before_first(field@, '-'));
    parse_u32_chars(&num)
}

/// What follows the first `.`, if any.
fn after_dot(t: &Vec<char>) -> (r: Option<Vec<char>>)
    ensures
        match after_first(t@, '.') {
            None => r is None,
            Some(rest) => r matches Some(v) && v@ == rest,
        },
{
    let i = index_of(t, '.');
    proof {
        lemma_find_first_bounds(t@, '.');
    }
    if i == t.len() {
        None
    } else {
        let v = slice_chars(t, i + 1, t.len());
        assert(v@ =~= t@.skip(i + 1));
        Some(v)
    }
}

/// `v1.2.3` / `1.2.3` -> `(1, 2, 3)`. Extra suffixes are ignored after the patch.
pub fn parse_version(s: &str) -> (r: Option<(u32, u32, u32)>)
    ensures
        r == parse_version_spec(s@),
{
    let cs = chars_of(s);
    let t0 = trim_chars(&cs);
    let t1 = strip_leading_chars(&t0, 'v');
    let t = strip_leading_chars(&t1, 'V');
    let major = version_field_chars(&t);
    let r1 = match after_dot(&t) {
        Some(v) => v,
        None => {
            return None;
        },
    };
    let minor = version_field_chars(&r1);
    let r2 = match after_dot(&r1) {
        Some(v) => v,
        None => {
            return None;
        },
    };
    let patch = version_field_chars(&r2);
    match (major, minor, patch) {
        (Some(a), Some(b), Some(c)) => Some((a, b, c)),
        _ => None,
    }
}

/// True when `remote` is a strictly newer version than `local`.
pub fn is_newer(remote: &str, local: &str) -> (b: bool)
    ensures
        b == newer_spec(remote@, local@),
{
    match (parse_version(remote), parse_version(local)) {
        (Some(r), Some(l)) => r.0 > l.0 || (r.0 == l.0 && (r.1 > l.1 || (r.1 == l.1 && r.2 > l.2))),
        _ => false,
    }
}

/// Whether `url` is a release-asset download URL of this repository.
pub fn is_trusted_zip_url(url: &str) -> (b: bool)
    ensures
        b == trusted_zip_url(url@),
{
    let cs = chars_of(url);
    let t = trim_chars(&cs);
    let prefix = chars_of(ZIP_PREFIX);
    if !has_prefix(&t, &prefix) || has_char(&t, '?') || has_char(&t, '#') || has_char(&t, '\\')
        || has_char(&t, '\n') || has_char(&t, '\r') {
        return false;
    }
    let mut dots: Vec<char> = Vec::new();
    dots.push('.');
    dots.push('.');
    assert(dots@ =~= seq!['.', '.']);
    if has_sub(&t, &dots) {
        return false;
    }
    let name = after_last_chars(&t, '/');
    let head = chars_of(ASSET_PREFIX);
    let tail = chars_of(ASSET_SUFFIX);
    has_prefix(&name, &head) && has_suffix(&name, &tail)
}

/// A newer GitHub release we can install.
#[derive(Debug, Clone)]
pub struct Latest {
    /// Display version without a leading `v`.
    pub version: String,
    /// Direct zip URL (`NetFlash-*-macos.zip`).
    pub zip_url: String,
}

/// One asset of a GitHub release, as the releases API lists it.
#[derive(Debug, Clone)]
pub struct ReleaseAsset {
    /// File name of the asset.
    pub name: String,
    /// Direct download URL.
    pub browser_download_url: String,
}

/// Every leading `v` or `V` removed (`trim_start_matches(['v', 'V'])`).
pub open spec fn strip_leading_vs(s: Seq<char>) -> Seq<char>
    decreases s.len(),
{
    if s.len() > 0 && (s[0] == 'v' || s[0] == 'V') {
        strip_leading_vs(s.drop_first())
    } else {
        s
    }
}

/// A `NetFlash-*-macos.zip` asset name.
pub open spec fn is_zip_asset_name(name: Seq<char>) -> bool {
    starts_with(name, ASSET_PREFIX@) && ends_with(name, ASSET_SUFFIX@)
}

/// Index of the first macOS zip asset, or the number of assets when there is none.
pub open spec fn first_zip_asset(assets: Seq<ReleaseAsset>) -> int
    decreases assets.len(),
{
    if assets.len() == 0 {
        0
    } else if is_zip_asset_name(assets[0].name@) {
        0
    } else {
        1 + first_zip_asset(assets.drop_first())
    }
}

proof fn lemma_first_zip_asset(assets: Seq<ReleaseAsset>, i: int)
    requires
        0 <= i <= assets.len(),
        forall|k: int| 0 <= k < i ==> !is_zip_asset_name(#[trigger] assets[k].name@),
        i < assets.len() ==> is_zip_asset_name(assets[i].name@),
    ensures
        first_zip_asset(assets) == i,
    decreases assets.len(),
{
    if assets.len() > 0 && i > 0 {
        assert forall|k: int| 0 <= k < i - 1 implies !is_zip_asset_name(
            #[trigger] assets.drop_first()[k].name@,
        ) by {
            assert(assets.drop_first()[k] == assets[k + 1]);
        }
        lemma_first_zip_asset(assets.drop_first(), i - 1);
    }
}

/// What a release check reports: nothing unless the tag is strictly newer than
/// `local`, the release has a `NetFlash-*-macos.zip` asset, and the first such
/// asset's URL is trusted; then the tag (trimmed, leading `v`/`V` removed) and
/// that URL.
pub open spec fn release_offer(tag: Seq<char>, assets: Seq<ReleaseAsset>, local: Seq<char>) -> Option<(Seq<char>, Seq<char>)> {
    let i = first_zip_asset(assets);
    if !newer_spec(tag, local) || i >= assets.len() || !trusted_zip_url(assets[i].browser_download_url@) {
        None
    } else {
        Some((strip_leading_vs(trim(tag)), assets[i].browser_download_url@))
    }
}

/// Decide, from a fetched release, whether to offer an update.
pub fn select_release(tag_name: &str, assets: &Vec<ReleaseAsset>, local_version: &str) -> (r: Option<Latest>)
    ensures
        match release_offer(tag_name@, assets@, local_version@) {
            None => r is None,
            Some((version, url)) => r matches Some(l) && l.version@ == version && l.zip_url@ == url,
        },
{
    if !is_newer(tag_name, local_version) {
        return None;
    }
    let n = assets.len();
    let head = chars_of(ASSET_PREFIX);
    let tail = chars_of(ASSET_SUFFIX);
    let mut i: usize = 0;
    while i < n
        invariant
            n == assets@.len(),
            i <= n,
            head@ == ASSET_PREFIX@,
            tail@ == ASSET_SUFFIX@,
            forall|k: int| 0 <= k < i ==> !is_zip_asset_name(#[trigger] assets@[k].name@),
        ensures
            i <= n,
            forall|k: int| 0 <= k < i ==> !is_zip_asset_name(#[trigger] assets@[k].name@),
            i < n ==> is_zip_asset_name(assets@[i as int].name@),
        decreases n - i,
    {
        let name = chars_of(assets[i].name.as_str());
        if has_prefix(&name, &head) && has_suffix(&name, &tail) {
            break;
        }
        i = i + 1;
    }
    proof {
        lemma_first_zip_asset(assets@, i as int);
    }
    if i == n {
        return None;
    }
    if !is_trusted_zip_url(assets[i].browser_download_url.as_str()) {
        return None;
    }
    let cs = chars_of(tag_name);
    let (a, b) = trim_bounds(&cs);
    let mut k = a;
    while k < b && (cs[k] == 'v' || cs[k] == 'V')
        invariant
            a <= k <= b <= cs@.len(),
            strip_leading_vs(cs@.subrange(a as int, b as int)) == strip_leading_vs(cs@.subrange(k as int, b as int)),
        decreases b - k,
    {
        assert(cs@.subrange(k as int, b as int).drop_first() =~= cs@.subrange(k + 1, b as int));
        k = k + 1;
    }
    proof {
        if k < b {
            assert(cs@.subrange(k as int, b as int)[0] == cs@[k as int]);
        }
    }
    let version = tag_name.substring_char(k, b).to_owned();
    let zip_url = assets[i].browser_download_url.clone();
    Some(Latest { version, zip_url })
}

/// Why an in-place replace was refused before any download.
#[derive(Debug, Clone, Copy, PartialEq, Eq, Structural)]
pub enum ReplaceError {
    /// The zip URL is not one of this repository's release assets.
    UntrustedUrl,
    /// The destination is not a `NetFlash.app` bundle.
    NotAppBundle,
}

/// Pre-checks of a replace: the URL must be trusted, then the destination's
/// file name must be exactly `NetFlash.app`.
pub fn check_replace(zip_url: &str, dest_file_name: Option<&str>) -> (r: Result<(), ReplaceError>)
    ensures
        !trusted_zip_url(zip_url@) ==> r == Err::<(), ReplaceError>(ReplaceError::UntrustedUrl),
        trusted_zip_url(zip_url@) ==> r == match dest_file_name {
            Some(n) => if n@ == APP_BUNDLE@ {
                Ok::<(), ReplaceError>(())
            } else {
                Err(ReplaceError::NotAppBundle)
            },
            None => Err(ReplaceError::NotAppBundle),
        },
{
    if !is_trusted_zip_url(zip_url) {
        return Err(ReplaceError::UntrustedUrl);
    }
    match dest_file_name {
        Some(n) => {
            if same_text(n, APP_BUNDLE) {
                Ok(())
            } else {
                Err(ReplaceError::NotAppBundle)
            }
        },
        None => Err(ReplaceError::NotAppBundle),
    }
}

/// The running executable sits in `NetFlash.app/Contents/MacOS/`: given the
/// names of its parent, grandparent and great-grandparent directories.
pub fn is_app_bundle_layout(macos_dir: Option<&str>, contents_dir: Option<&str>, app_dir: Option<&str>) -> (b: bool)
    ensures
        b == match (macos_dir, contents_dir, app_dir) {
            (Some(m), Some(c), Some(a)) => m@ == "MacOS"@ && c@ == "Contents"@ && a@ == APP_BUNDLE@,
            _ => false,
        },
{
    match (macos_dir, contents_dir, app_dir) {
        (Some(m), Some(c), Some(a)) => same_text(m, "MacOS") && same_text(c, "Contents") && same_text(a, APP_BUNDLE),
        _ => false,
    }
}

/// The ASCII digit of `d < 10`.
pub open spec fn digit_char(d: nat) -> char {
    (d + 48) as char
}

/// `n` written in decimal, most significant digit first, without leading
/// zeros (what `format!("{n}")` gives).
pub open spec fn decimal_digits(n: nat) -> Seq<char>
    decreases n,
{
    if n < 10 {
        seq![digit_char(n)]
    } else {
        decimal_digits(n / 10).push(digit_char(n % 10))
    }
}

/// `n` written in decimal is a non-empty run of digits with value `n`.
pub proof fn lemma_decimal_digits(n: nat)
    ensures
        decimal_digits(n).len() > 0,
        all_digits(decimal_digits(n)),
        decimal(decimal_digits(n)) == n,
    decreases n,
{
    let d = decimal_digits(n);
    let last = digit_char(n % 10);
    assert(last as nat == n % 10 + 48);
    if n < 10 {
        assert(d.drop_last() =~= Seq::<char>::empty());
        assert(d.last() == last);
        assert(decimal(d) == decimal(d.drop_last()) * 10 + ((last as nat) - 48) as nat);
        assert(is_digit(d[0]));
    } else {
        lemma_decimal_digits(n / 10);
        let e = decimal_digits(n / 10);
        assert(d.drop_last() =~= e);
        assert(d.last() == last);
        assert(decimal(d) == decimal(e) * 10 + n % 10);
        assert((n / 10) * 10 + n % 10 == n);
        assert forall|i: int| 0 <= i < d.len() implies is_digit(#[trigger] d[i]) by {
            if i < e.len() {
                assert(d[i] == e[i]);
            }
        }
    }
}

/// Decimal text parses back to its value.
proof fn lemma_parse_decimal(n: u32)
    ensures
        parse_u32(decimal_digits(n as nat)) == Some(n),
{
    lemma_decimal_digits(n as nat);
    let d = decimal_digits(n as nat);
    assert(is_digit(d[0]));
    assert(unsigned_digits(d) == d);
}

/// Decimal text holds no `c` that is not a digit.
proof fn lemma_digits_lack(n: nat, c: char)
    requires
        !is_digit(c),
    ensures
        forall|i: int| 0 <= i < decimal_digits(n).len() ==> decimal_digits(n)[i] != c,
{
    lemma_decimal_digits(n);
    let d = decimal_digits(n);
    assert forall|i: int| 0 <= i < d.len() implies d[i] != c by {
        assert(is_digit(d[i]));
    }
}

/// A field `n` followed by `w`, where `w` is empty or starts with `.` or `-`,
/// parses as `n`.
proof fn lemma_field_parses(n: u32, w: Seq<char>)
    requires
        w.len() == 0 || w[0] == '.' || w[0] == '-',
    ensures
        version_field(decimal_digits(n as nat) + w) == Some(n),
{
    let d = decimal_digits(n as nat);
    lemma_digits_lack(n as nat, '.');
    lemma_digits_lack(n as nat, '-');
    lemma_before_first_concat(d, w, '.');
    let v = before_first(w, '.');
    lemma_find_first_bounds(w, '.');
    if w.len() > 0 && w[0] == '-' && v.len() > 0 {
        assert(v[0] == w[0]);
    }
    lemma_before_first_concat(d, v, '-');
    lemma_parse_decimal(n);
}

/// The version text of `p + core + x`, where `p` is empty, `v` or `V`, `core`
/// runs from a digit to a digit, and `x` is empty or starts with `-` or `.`:
/// `core` followed by `x` with its trailing spaces trimmed.
proof fn lemma_version_text_of(p: Seq<char>, core: Seq<char>, x: Seq<char>)
    requires
        p == Seq::<char>::empty() || p == seq!['v'] || p == seq!['V'],
        core.len() > 0,
        is_digit(core[0]),
        is_digit(core.last()),
        x.len() == 0 || x[0] == '-' || x[0] == '.',
    ensures
        version_text(p + core + x) == core + trim_end(x),
        trim_end(x).len() == 0 || trim_end(x)[0] == x[0],
{
    let s = p + core + x;
    let u = p + core;
    assert(s =~= u + x);
    assert(u[0] == if p.len() == 0 { core[0] } else { p[0] });
    assert(s[0] == u[0]);
    assert(trim_start(s) == s);
    assert(u.last() == core.last());
    lemma_trim_end_concat(u, x);
    let xt = trim_end(x);
    lemma_trim_end_prefix(x);
    if x.len() > 0 && xt.len() > 0 {
        assert(xt[0] == x.take(xt.len() as int)[0]);
    }
    let t = core + xt;
    assert(t[0] == core[0]);
    if p.len() == 0 {
        assert(u + xt =~= t);
    } else {
        assert((u + xt).drop_first() =~= t);
    }
    assert(strip_leading(t, 'v') == t);
    assert(strip_leading(t, 'V') == t);
}

/// What follows the first `.` of `d + "." + r`, where `d` is decimal text.
proof fn lemma_after_field(n: nat, r: Seq<char>)
    ensures
        after_first(decimal_digits(n) + (seq!['.'] + r), '.') == Some(r),
{
    let d = decimal_digits(n);
    lemma_digits_lack(n, '.');
    lemma_find_first_concat(d, seq!['.'] + r, '.');
    assert((seq!['.'] + r)[0] == '.');
    assert((d + (seq!['.'] + r)).skip(d.len() as int + 1) =~= r);
}

/// A formatted version parses back: an optional `v` or `V`, then `a.b.c` in
/// decimal, then nothing or a suffix starting with `-` or `.`, gives
/// `(a, b, c)`.
pub proof fn law_version_round_trip(p: Seq<char>, a: u32, b: u32, c: u32, x: Seq<char>)
    requires
        p == Seq::<char>::empty() || p == seq!['v'] || p == seq!['V'],
        x.len() == 0 || x[0] == '-' || x[0] == '.',
    ensures
        parse_version_spec(
            p + decimal_digits(a as nat) + seq!['.'] + decimal_digits(b as nat) + seq!['.']
                + decimal_digits(c as nat) + x,
        ) == Some((a, b, c)),
{
    let da = decimal_digits(a as nat);
    let db = decimal_digits(b as nat);
    let dc = decimal_digits(c as nat);
    lemma_decimal_digits(a as nat);
    lemma_decimal_digits(c as nat);
    let core = da + seq!['.'] + db + seq!['.'] + dc;
    assert(core[0] == da[0]);
    assert(core.last() == dc.last());
    assert(is_digit(da[0]));
    assert(is_digit(dc[dc.len() - 1]));
    assert(p + da + seq!['.'] + db + seq!['.'] + dc + x =~= p + core + x);
    lemma_version_text_of(p, core, x);
    let xt = trim_end(x);
    let r2 = dc + xt;
    let r1 = db + (seq!['.'] + r2);
    let t = core + xt;
    assert(t =~= da + (seq!['.'] + r1));
    lemma_after_field(a as nat, r1);
    lemma_after_field(b as nat, r2);
    lemma_field_parses(a, seq!['.'] + r1);
    lemma_field_parses(b, seq!['.'] + r2);
    lemma_field_parses(c, xt);
}

/// Fewer than three dotted fields never parse: a version text with fewer than
/// two `.` gives `None`.
pub proof fn law_version_needs_three_fields(s: Seq<char>)
    requires
        occurrences(version_text(s), '.') < 2,
    ensures
        parse_version_spec(s) is None,
{
    let t = version_text(s);
    if find_first(t, '.') < t.len() {
        lemma_occurrences_after_first(t, '.');
        let r1 = t.skip(find_first(t, '.') + 1);
        if find_first(r1, '.') < r1.len() {
            lemma_occurrences_after_first(r1, '.');
        }
    }
}

/// "Newer" is strict: no version is newer than itself, and of two versions at
/// most one is newer than the other.
pub proof fn law_newer_is_strict(a: Seq<char>, b: Seq<char>)
    ensures
        !newer_spec(a, a),
        !(newer_spec(a, b) && newer_spec(b, a)),
{
}

} // verus!
