//! Names of runs, buckets, tables and directories.
use crate::text;
use crate::text::CharClass;
use vstd::prelude::*;
use vstd::string::*;

verus! {

// ---------------------------------------------------------------------------------------------
// Paths
// ---------------------------------------------------------------------------------------------
/// `base` extended by `part`; an absolute `part` stands for itself.
pub open spec fn path_join_spec(base: Seq<char>, part: Seq<char>) -> Seq<char> {
    if part.len() > 0 && part[0] == '/' {
        part
    } else if base.len() == 0 || base.last() == '/' {
        base + part
    } else {
        base + "/"@ + part
    }
}

pub fn path_join(base: &str, part: &str) -> (r: String)
    ensures
        r@ == path_join_spec(base@, part@),
{
    let b = text::chars_of(base);
    let p = text::chars_of(part);
    if p.len() > 0 && p[0] == '/' {
        part.to_owned()
    } else if b.len() == 0 || b[b.len() - 1] == '/' {
        text::cat2(base, part)
    } else {
        text::cat3(base, "/", part)
    }
}

/// A run id as one directory name.
pub open spec fn path_part_spec(value: Seq<char>) -> Seq<char> {
    text::clean_spec(value, CharClass::AlnumDashUnderscoreDot, '_')
}

pub fn sanitize_path_part(value: &str) -> (r: String)
    ensures
        r@ == path_part_spec(value@),
{
    text::clean(value, CharClass::AlnumDashUnderscoreDot, '_')
}

/// `work_dir/runs/<run id>`.
pub open spec fn run_dir_spec(work_dir: Seq<char>, run_id: Seq<char>) -> Seq<char> {
    path_join_spec(path_join_spec(work_dir, "runs"@), path_part_spec(run_id))
}

pub fn run_dir(work_dir: &str, run_id: &str) -> (r: String)
    ensures
        r@ == run_dir_spec(work_dir@, run_id@),
{
    path_join(path_join(work_dir, "runs").as_str(), sanitize_path_part(run_id).as_str())
}

/// `work_dir/runs/<run id>/<resource id>`.
pub fn resource_dir(work_dir: &str, run_id: &str, resource_id: &str) -> (r: String)
    ensures
        r@ == path_join_spec(run_dir_spec(work_dir@, run_id@), resource_id@),
{
    path_join(run_dir(work_dir, run_id).as_str(), resource_id)
}

// ---------------------------------------------------------------------------------------------
// Parts of names
// ---------------------------------------------------------------------------------------------
/// `s` without leading separators and with every run of separators shortened to one.
pub open spec fn squeeze(s: Seq<char>, separator: char) -> Seq<char>
    decreases s.len(),
{
    if s.len() == 0 {
        Seq::empty()
    } else {
        let out = squeeze(s.drop_last(), separator);
        if s.last() != separator {
            out.push(s.last())
        } else if out.len() == 0 || out.last() == separator {
            out
        } else {
            out.push(separator)
        }
    }
}

/// `s` without separators at its ends and with every run of separators shortened to one.
pub open spec fn collapse_spec(s: Seq<char>, separator: char) -> Seq<char> {
    text::trim_back_spec(squeeze(s, separator), CharClass::Just(separator))
}

pub fn collapse_separators(s: &str, separator: char) -> (r: String)
    ensures
        r@ == collapse_spec(s@, separator),
{
    let v = text::chars_of(s);
    let mut out: Vec<char> = Vec::new();
    let mut i: usize = 0;
    assert(v@.take(0) =~= Seq::<char>::empty());
    while i < v.len()
        invariant
            i <= v@.len(),
            v@ == s@,
            out@ == squeeze(v@.take(i as int), separator),
        decreases v.len() - i,
    {
        assert(v@.take(i + 1).drop_last() =~= v@.take(i as int));
        if v[i] != separator {
            out.push(v[i]);
        } else if out.len() > 0 && out[out.len() - 1] != separator {
            out.push(separator);
        }
        i = i + 1;
    }
    assert(v@.take(v@.len() as int) =~= v@);
    let mut n: usize = out.len();
    assert(out@.take(n as int) =~= out@);
    while n > 0 && out[n - 1] == separator
        invariant
            n <= out@.len(),
            text::trim_back_spec(out@.take(n as int), CharClass::Just(separator)) == collapse_spec(
                s@,
                separator,
            ),
        decreases n,
    {
        assert(out@.take(n as int).drop_last() =~= out@.take(n - 1));
        n = n - 1;
    }
    assert(out@.subrange(0, n as int) =~= out@.take(n as int));
    text::substring(&out, 0, n)
}

/// A part of a DNS-compatible name: lower-case letters, digits and single dashes between them.
pub open spec fn dns_part_spec(value: Seq<char>) -> Seq<char> {
    collapse_spec(text::clean_spec(text::normal_spec(value), CharClass::Alnum, '-'), '-')
}

pub fn sanitize_dns_part(value: &str) -> (r: String)
    ensures
        r@ == dns_part_spec(value@),
{
    collapse_separators(
        text::clean(text::normal(value).as_str(), CharClass::Alnum, '-').as_str(),
        '-',
    )
}

/// A part of a table name: letters, digits, dots, underscores and single dashes between them.
pub open spec fn table_part_spec(value: Seq<char>) -> Seq<char> {
    collapse_spec(
        text::clean_spec(text::trim_spec(value), CharClass::AlnumDashUnderscoreDot, '-'),
        '-',
    )
}

pub fn sanitize_dynamodb_part(value: &str) -> (r: String)
    ensures
        r@ == table_part_spec(value@),
{
    collapse_separators(
        text::clean(
            text::trim(value).as_str(),
            CharClass::AlnumDashUnderscoreDot,
            '-',
        ).as_str(),
        '-',
    )
}

/// A channel id prefix: letters, digits, dashes and underscores.
pub open spec fn id_spec(value: Seq<char>) -> Seq<char> {
    text::clean_spec(value, CharClass::AlnumDashUnderscore, '-')
}

pub fn sanitize_id(input: &str) -> (r: String)
    ensures
        r@ == id_spec(input@),
{
    text::clean(input, CharClass::AlnumDashUnderscore, '-')
}

// ---------------------------------------------------------------------------------------------
// Whole names
// ---------------------------------------------------------------------------------------------
pub open spec fn or_lcbench(part: Seq<char>) -> Seq<char> {
    if part.len() == 0 {
        "lcbench"@
    } else {
        part
    }
}

fn part_or_lcbench(part: String) -> (r: String)
    ensures
        r@ == or_lcbench(part@),
{
    if part.as_str().is_empty() {
        "lcbench".to_owned()
    } else {
        part
    }
}

/// How many characters of a prefix leave room for a dash and the suffix within `limit`, at least
/// one.
pub open spec fn prefix_room(limit: int, suffix_len: int) -> int {
    if limit - suffix_len - 1 >= 1 {
        limit - suffix_len - 1
    } else {
        1
    }
}

fn room_for_prefix(limit: usize, suffix_len: usize) -> (r: usize)
    ensures
        r == prefix_room(limit as int, suffix_len as int),
{
    if suffix_len < limit && limit - suffix_len - 1 >= 1 {
        limit - suffix_len - 1
    } else {
        1
    }
}

/// `s` filled up at the end with zeros to at least three characters.
pub open spec fn pad_three(s: Seq<char>) -> Seq<char> {
    s + text::zeros(3 - s.len())
}

fn pad_to_three(s: String) -> (r: String)
    ensures
        r@ == pad_three(s@),
{
    let mut out = s;
    let mut n: usize = text::chars_of(out.as_str()).len();
    assert(out@ + text::zeros(0) =~= out@);
    let ghost start = s@;
    while n < 3
        invariant
            n == out@.len(),
            start.len() <= n,
            start.len() > 3 ==> n == start.len(),
            start.len() <= 3 ==> n <= 3,
            out@ == start + text::zeros(n - start.len()),
        decreases 3 - n,
    {
        out.push('0');
        assert(out@ =~= start + text::zeros(n + 1 - start.len()));
        n = n + 1;
    }
    assert(out@ =~= pad_three(start));
    out
}

/// `prefix-suffix` with the prefix shortened so that the whole stays within `limit`.
pub open spec fn limited_name(prefix: Seq<char>, suffix: Seq<char>, limit: int) -> Seq<char> {
    text::head_spec(or_lcbench(prefix), prefix_room(limit, suffix.len() as int)) + "-"@ + suffix
}

fn name_within(prefix: String, suffix: &str, limit: usize) -> (r: String)
    ensures
        r@ == limited_name(prefix@, suffix@, limit as int),
{
    let room: usize = room_for_prefix(limit, text::chars_of(suffix).len());
    let head = text::truncate_ascii(part_or_lcbench(prefix).as_str(), room);
    text::cat3(head.as_str(), "-", suffix)
}

/// The bucket of a resource.
pub open spec fn s3_bucket_name_spec(prefix: Seq<char>, resource_id: Seq<char>) -> Seq<char> {
    text::trim_class_spec(
        pad_three(limited_name(dns_part_spec(prefix), dns_part_spec(resource_id), 63)),
        CharClass::Just('-'),
    )
}

pub fn s3_bucket_name(prefix: &str, resource_id: &str) -> (r: String)
    ensures
        r@ == s3_bucket_name_spec(prefix@, resource_id@),
{
    let suffix = sanitize_dns_part(resource_id);
    let name = name_within(sanitize_dns_part(prefix), suffix.as_str(), 63);
    text::trim_class(pad_to_three(name).as_str(), CharClass::Just('-'))
}

/// The table of a resource.
pub open spec fn dynamodb_table_name_spec(prefix: Seq<char>, resource_id: Seq<char>) -> Seq<char> {
    pad_three(limited_name(table_part_spec(prefix), table_part_spec(resource_id), 255))
}

pub fn dynamodb_table_name(prefix: &str, resource_id: &str) -> (r: String)
    ensures
        r@ == dynamodb_table_name_spec(prefix@, resource_id@),
{
    let suffix = sanitize_dynamodb_part(resource_id);
    pad_to_three(name_within(sanitize_dynamodb_part(prefix), suffix.as_str(), 255))
}

/// An id for one use of a run on an instance, from the process id and the time in nanoseconds.
pub open spec fn unique_resource_id_spec(
    run_id: Seq<char>,
    instance_id: Seq<char>,
    process_id: nat,
    now_nanos: nat,
) -> Seq<char> {
    text::head_spec(dns_part_spec(run_id), 16) + "-"@ + text::head_spec(
        dns_part_spec(instance_id),
        8,
    ) + "-"@ + text::tail_spec(text::hex(process_id) + text::hex(now_nanos), 16)
}

pub fn unique_resource_id(run_id: &str, instance_id: &str, process_id: u32, now_nanos: u128) -> (r:
    String)
    ensures
        r@ == unique_resource_id_spec(
            run_id@,
            instance_id@,
            process_id as nat,
            now_nanos as nat,
        ),
{
    let entropy = text::cat2(
        text::hexadecimal(process_id as u128).as_str(),
        text::hexadecimal(now_nanos).as_str(),
    );
    text::cat5(
        text::truncate_ascii(sanitize_dns_part(run_id).as_str(), 16).as_str(),
        "-",
        text::truncate_ascii(sanitize_dns_part(instance_id).as_str(), 8).as_str(),
        "-",
        text::tail_ascii(entropy.as_str(), 16).as_str(),
    )
}

/// The port of an endpoint: what follows the last colon of its authority, where that is a number.
pub open spec fn endpoint_port_spec(endpoint: Seq<char>) -> Option<nat> {
    let trimmed = text::trim_spec(endpoint);
    let rest = match text::after_last_spec(trimmed, "://"@) {
        Some(rest) => rest,
        None => trimmed,
    };
    match text::after_last_spec(text::before_spec(rest, '/'), ":"@) {
        Some(port) => match text::number_spec(port, u16::MAX as nat) {
            Ok(n) => Some(n),
            Err(_) => None,
        },
        None => None,
    }
}

pub fn endpoint_port(endpoint: &str) -> (r: Option<u16>)
    ensures
        match r {
            Some(port) => endpoint_port_spec(endpoint@) == Some(port as nat),
            None => endpoint_port_spec(endpoint@) is None,
        },
{
    let trimmed = text::trim(endpoint);
    let rest = match text::after_last(trimmed.as_str(), "://") {
        Some(rest) => rest,
        None => trimmed,
    };
    let authority = text::before(rest.as_str(), '/');
    match text::after_last(authority.as_str(), ":") {
        Some(port) => match text::number(port.as_str(), u16::MAX as u64) {
            Ok(n) => Some(n as u16),
            Err(_) => None,
        },
        None => None,
    }
}

// ---------------------------------------------------------------------------------------------
// What the names look like
// ---------------------------------------------------------------------------------------------
/// A lower-case letter or a digit.
pub open spec fn is_lower_alnum(c: char) -> bool {
    text::is_alnum_spec(c) && !text::is_upper_spec(c)
}

proof fn lemma_squeeze_members(s: Seq<char>, separator: char)
    ensures
        forall|i: int|
            0 <= i < squeeze(s, separator).len() ==> s.contains(#[trigger] squeeze(s, separator)[i]),
        squeeze(s, separator).len() > 0 ==> squeeze(s, separator)[0] != separator,
        squeeze(s, separator).len() <= s.len(),
    decreases s.len(),
{
    if s.len() > 0 {
        let init = s.drop_last();
        lemma_squeeze_members(init, separator);
        assert forall|i: int| 0 <= i < squeeze(s, separator).len() implies s.contains(
            #[trigger] squeeze(s, separator)[i],
        ) by {
            if i < squeeze(init, separator).len() {
                assert(squeeze(s, separator)[i] == squeeze(init, separator)[i]);
                let k = choose|k: int| 0 <= k < init.len() && init[k] == squeeze(init, separator)[i];
                assert(s[k] == squeeze(init, separator)[i]);
            } else {
                assert(s[s.len() - 1] == squeeze(s, separator)[i]);
            }
        }
    }
}

proof fn lemma_trim_back_is_prefix(s: Seq<char>, class: CharClass)
    ensures
        text::trim_back_spec(s, class).len() <= s.len(),
        text::trim_back_spec(s, class) == s.take(text::trim_back_spec(s, class).len() as int),
        text::trim_back_spec(s, class).len() > 0 ==> !class.has_spec(
            text::trim_back_spec(s, class).last(),
        ),
    decreases s.len(),
{
    if s.len() > 0 && class.has_spec(s.last()) {
        lemma_trim_back_is_prefix(s.drop_last(), class);
        let n = text::trim_back_spec(s, class).len() as int;
        assert(s.drop_last().take(n) =~= s.take(n));
    } else {
        assert(s.take(s.len() as int) =~= s);
    }
}

/// No two neighbours in `s` are separators.
pub open spec fn has_single_separators(s: Seq<char>, separator: char) -> bool {
    forall|i: int, j: int|
        0 <= i && j == i + 1 && j < s.len() && #[trigger] s[i] == separator
            ==> #[trigger] s[j] != separator
}

/// `s` without its separators.
pub open spec fn without_separators(s: Seq<char>, separator: char) -> Seq<char>
    decreases s.len(),
{
    if s.len() == 0 {
        Seq::empty()
    } else if s.last() == separator {
        without_separators(s.drop_last(), separator)
    } else {
        without_separators(s.drop_last(), separator).push(s.last())
    }
}

/// `n` separators.
pub open spec fn run_of(n: nat, separator: char) -> Seq<char> {
    Seq::new(n, |i: int| separator)
}

proof fn lemma_squeeze_has_single_separators(s: Seq<char>, separator: char)
    ensures
        has_single_separators(squeeze(s, separator), separator),
    decreases s.len(),
{
    if s.len() > 0 {
        lemma_squeeze_has_single_separators(s.drop_last(), separator);
        let out = squeeze(s.drop_last(), separator);
        assert forall|i: int, j: int|
            0 <= i && j == i + 1 && j < squeeze(s, separator).len() && #[trigger] squeeze(
                s,
                separator,
            )[i] == separator implies #[trigger] squeeze(s, separator)[j] != separator by {
            if j < out.len() {
                assert(out[i] == separator ==> out[j] != separator);
            }
        }
    }
}

proof fn lemma_squeeze_keeps(s: Seq<char>, separator: char)
    requires
        s.len() > 0 ==> s[0] != separator,
        has_single_separators(s, separator),
    ensures
        squeeze(s, separator) == s,
    decreases s.len(),
{
    if s.len() > 0 {
        let init = s.drop_last();
        assert(has_single_separators(init, separator)) by {
            assert forall|i: int, j: int|
                0 <= i && j == i + 1 && j < init.len() && #[trigger] init[i]
                    == separator implies #[trigger] init[j] != separator by {
                assert(s[i] == separator ==> s[j] != separator);
            }
        }
        lemma_squeeze_keeps(init, separator);
        if s.last() == separator {
            assert(init.len() > 0);
            assert(s[init.len() - 1] == separator ==> s[init.len() as int] != separator);
        }
        assert(init.push(s.last()) =~= s);
    } else {
        assert(s =~= Seq::<char>::empty());
    }
}

proof fn lemma_squeeze_without_separators(s: Seq<char>, separator: char)
    ensures
        without_separators(squeeze(s, separator), separator) == without_separators(s, separator),
    decreases s.len(),
{
    if s.len() > 0 {
        lemma_squeeze_without_separators(s.drop_last(), separator);
        let out = squeeze(s.drop_last(), separator);
        assert(out.push(s.last()).drop_last() =~= out);
        assert(out.push(separator).drop_last() =~= out);
    }
}

proof fn lemma_trim_without_separators(s: Seq<char>, separator: char)
    ensures
        without_separators(text::trim_back_spec(s, CharClass::Just(separator)), separator)
            == without_separators(s, separator),
    decreases s.len(),
{
    if s.len() > 0 && s.last() == separator {
        lemma_trim_without_separators(s.drop_last(), separator);
    }
}

/// A collapsed text neither starts nor ends with a separator, holds no two separators next to each
/// other, and holds no other characters than before.
pub proof fn lemma_collapse_shape(s: Seq<char>, separator: char)
    ensures
        collapse_spec(s, separator).len() <= s.len(),
        collapse_spec(s, separator).len() > 0 ==> collapse_spec(s, separator)[0] != separator
            && collapse_spec(s, separator).last() != separator,
        has_single_separators(collapse_spec(s, separator), separator),
        forall|i: int|
            0 <= i < collapse_spec(s, separator).len() ==> s.contains(
                #[trigger] collapse_spec(s, separator)[i],
            ),
{
    lemma_squeeze_members(s, separator);
    lemma_squeeze_has_single_separators(s, separator);
    lemma_trim_back_is_prefix(squeeze(s, separator), CharClass::Just(separator));
    let out = collapse_spec(s, separator);
    assert forall|i: int| 0 <= i < out.len() implies s.contains(#[trigger] out[i]) by {
        assert(out[i] == squeeze(s, separator)[i]);
    }
    assert forall|i: int, j: int|
        0 <= i && j == i + 1 && j < out.len() && #[trigger] out[i]
            == separator implies #[trigger] out[j] != separator by {
        assert(squeeze(s, separator)[i] == separator ==> squeeze(s, separator)[j] != separator);
    }
    if out.len() > 0 {
        assert(out[0] == squeeze(s, separator)[0]);
    }
}

/// To collapse a text keeps every character that is not a separator, in order.
pub proof fn lemma_collapse_keeps_the_rest(s: Seq<char>, separator: char)
    ensures
        without_separators(collapse_spec(s, separator), separator) == without_separators(
            s,
            separator,
        ),
{
    lemma_squeeze_without_separators(s, separator);
    lemma_trim_without_separators(squeeze(s, separator), separator);
}

/// To collapse a collapsed text changes nothing.
pub proof fn lemma_collapse_idempotent(s: Seq<char>, separator: char)
    ensures
        collapse_spec(collapse_spec(s, separator), separator) == collapse_spec(s, separator),
{
    lemma_collapse_shape(s, separator);
    lemma_squeeze_keeps(collapse_spec(s, separator), separator);
}

proof fn lemma_squeeze_run(s: Seq<char>, n: nat, separator: char)
    requires
        s.len() > 0,
        s.last() != separator,
    ensures
        squeeze(s + run_of(n, separator), separator) == (if n == 0 {
            squeeze(s, separator)
        } else {
            squeeze(s, separator).push(separator)
        }),
    decreases n,
{
    if n == 0 {
        assert(s + run_of(n, separator) =~= s);
    } else {
        lemma_squeeze_run(s, (n - 1) as nat, separator);
        assert((s + run_of(n, separator)).drop_last() =~= s + run_of((n - 1) as nat, separator));
        assert(squeeze(s, separator).last() == s.last());
    }
}

proof fn lemma_squeeze_splits(s: Seq<char>, t: Seq<char>, separator: char)
    requires
        t.len() > 0,
        t[0] != separator,
    ensures
        squeeze(s + t, separator) == squeeze(s, separator) + squeeze(t, separator),
        squeeze(t, separator).len() > 0,
        squeeze(t, separator)[0] == t[0],
    decreases t.len(),
{
    let init = t.drop_last();
    assert((s + t).drop_last() =~= s + init);
    if init.len() == 0 {
        assert(s + init =~= s);
        assert(squeeze(init, separator) =~= Seq::<char>::empty());
    } else {
        lemma_squeeze_splits(s, init, separator);
    }
    assert(squeeze(s + t, separator) =~= squeeze(s, separator) + squeeze(t, separator));
}

proof fn lemma_trim_back_splits(s: Seq<char>, t: Seq<char>, separator: char)
    requires
        t.len() > 0,
        t[0] != separator,
    ensures
        text::trim_back_spec(s + t, CharClass::Just(separator)) == s + text::trim_back_spec(
            t,
            CharClass::Just(separator),
        ),
    decreases t.len(),
{
    if t.last() == separator {
        lemma_trim_back_splits(s, t.drop_last(), separator);
        assert((s + t).drop_last() =~= s + t.drop_last());
    }
}

/// Between two neighbours that are not separators a collapsed text has one separator where there
/// were any, and none where there were none. `s` ends with the first of the two and `t` starts with
/// the second.
pub proof fn lemma_collapse_between(s: Seq<char>, n: nat, t: Seq<char>, separator: char)
    requires
        s.len() > 0,
        s.last() != separator,
        t.len() > 0,
        t[0] != separator,
    ensures
        collapse_spec(s + run_of(n, separator) + t, separator) == collapse_spec(s, separator)
            + run_of(
            if n == 0 {
                0
            } else {
                1
            },
            separator,
        ) + collapse_spec(t, separator),
{
    lemma_squeeze_run(s, n, separator);
    lemma_squeeze_splits(s + run_of(n, separator), t, separator);
    lemma_trim_back_splits(
        squeeze(s + run_of(n, separator), separator),
        squeeze(t, separator),
        separator,
    );
    assert(squeeze(s, separator).last() == s.last());
    assert(collapse_spec(s, separator) == squeeze(s, separator));
    if n == 0 {
        assert(squeeze(s, separator) + run_of(0, separator) =~= squeeze(s, separator));
    } else {
        assert(squeeze(s, separator) + run_of(1, separator) =~= squeeze(s, separator).push(
            separator,
        ));
    }
}

/// A DNS part holds lower-case letters, digits and dashes, and no dash at either end.
pub proof fn lemma_dns_part_shape(value: Seq<char>)
    ensures
        forall|i: int|
            0 <= i < dns_part_spec(value).len() ==> is_lower_alnum(
                #[trigger] dns_part_spec(value)[i],
            ) || dns_part_spec(value)[i] == '-',
        dns_part_spec(value).len() > 0 ==> is_lower_alnum(dns_part_spec(value)[0])
            && is_lower_alnum(dns_part_spec(value).last()),
{
    let cleaned = text::clean_spec(text::normal_spec(value), CharClass::Alnum, '-');
    lemma_collapse_shape(cleaned, '-');
    let part = dns_part_spec(value);
    assert forall|i: int| 0 <= i < part.len() implies is_lower_alnum(#[trigger] part[i]) || part[i]
        == '-' by {
        let k = choose|k: int| 0 <= k < cleaned.len() && cleaned[k] == part[i];
        let source = text::trim_spec(value)[k];
        assert(text::normal_spec(value)[k] == text::lower_char_spec(source));
    }
    if part.len() > 0 {
        assert(is_lower_alnum(part[0]) || part[0] == '-');
        assert(is_lower_alnum(part[part.len() - 1]) || part[part.len() - 1] == '-');
    }
}

proof fn lemma_trim_class_keeps(s: Seq<char>, class: CharClass)
    requires
        s.len() > 0,
        !class.has_spec(s[0]),
        !class.has_spec(s.last()),
    ensures
        text::trim_class_spec(s, class) == s,
{
}

/// A bucket name has 3 to 63 characters, all of them lower-case letters, digits and dashes, and
/// starts and ends with a letter or digit, whenever the resource id leaves between 1 and 61
/// characters after cleaning. (An id that leaves none can give a name of two characters.)
pub proof fn lemma_bucket_name_shape(prefix: Seq<char>, resource_id: Seq<char>)
    requires
        1 <= dns_part_spec(resource_id).len() <= 61,
    ensures
        3 <= s3_bucket_name_spec(prefix, resource_id).len() <= 63,
        forall|i: int|
            0 <= i < s3_bucket_name_spec(prefix, resource_id).len() ==> is_lower_alnum(
                #[trigger] s3_bucket_name_spec(prefix, resource_id)[i],
            ) || s3_bucket_name_spec(prefix, resource_id)[i] == '-',
        is_lower_alnum(s3_bucket_name_spec(prefix, resource_id)[0]),
        is_lower_alnum(s3_bucket_name_spec(prefix, resource_id).last()),
{
    reveal_strlit("lcbench");
    reveal_strlit("-");
    lemma_dns_part_shape(prefix);
    lemma_dns_part_shape(resource_id);
    let suffix = dns_part_spec(resource_id);
    let full = or_lcbench(dns_part_spec(prefix));
    let head = text::head_spec(full, prefix_room(63, suffix.len() as int));
    let name = limited_name(dns_part_spec(prefix), suffix, 63);
    assert(full.len() >= 1 && is_lower_alnum(full[0]));
    assert(1 <= head.len() <= 62 - suffix.len());
    assert(name.len() == head.len() + 1 + suffix.len());
    assert(pad_three(name) =~= name);
    assert(name[0] == full[0]);
    assert(name.last() == suffix.last());
    assert(!CharClass::Just('-').has_spec(name[0]));
    assert(!CharClass::Just('-').has_spec(name.last()));
    lemma_trim_class_keeps(name, CharClass::Just('-'));
    assert forall|i: int| 0 <= i < name.len() implies is_lower_alnum(#[trigger] name[i]) || name[i]
        == '-' by {
        if i < head.len() {
            assert(name[i] == full[i]);
        } else if i > head.len() {
            assert(name[i] == suffix[i - head.len() - 1]);
        }
    }
}

/// A table name has 3 to 255 characters, all of them letters, digits, dashes, underscores and dots,
/// whenever the resource id leaves at most 253 characters after cleaning.
pub proof fn lemma_table_name_shape(prefix: Seq<char>, resource_id: Seq<char>)
    requires
        table_part_spec(resource_id).len() <= 253,
    ensures
        3 <= dynamodb_table_name_spec(prefix, resource_id).len() <= 255,
        forall|i: int|
            0 <= i < dynamodb_table_name_spec(prefix, resource_id).len()
                ==> CharClass::AlnumDashUnderscoreDot.has_spec(
                #[trigger] dynamodb_table_name_spec(prefix, resource_id)[i],
            ),
{
    reveal_strlit("lcbench");
    reveal_strlit("-");
    lemma_table_part_chars(prefix);
    lemma_table_part_chars(resource_id);
    let suffix = table_part_spec(resource_id);
    let full = or_lcbench(table_part_spec(prefix));
    let head = text::head_spec(full, prefix_room(255, suffix.len() as int));
    let name = limited_name(table_part_spec(prefix), suffix, 255);
    let padded = pad_three(name);
    assert(name.len() == head.len() + 1 + suffix.len());
    assert forall|i: int|
        0 <= i < padded.len() implies CharClass::AlnumDashUnderscoreDot.has_spec(
        #[trigger] padded[i],
    ) by {
        if i < head.len() {
            assert(padded[i] == full[i]);
        } else if i == head.len() {
            assert(padded[i] == '-');
        } else if i < name.len() {
            assert(padded[i] == suffix[i - head.len() - 1]);
        } else {
            assert(padded[i] == '0');
        }
    }
}

proof fn lemma_table_part_chars(value: Seq<char>)
    ensures
        forall|i: int|
            0 <= i < table_part_spec(value).len() ==> CharClass::AlnumDashUnderscoreDot.has_spec(
                #[trigger] table_part_spec(value)[i],
            ),
{
    let cleaned = text::clean_spec(
        text::trim_spec(value),
        CharClass::AlnumDashUnderscoreDot,
        '-',
    );
    lemma_collapse_shape(cleaned, '-');
    let part = table_part_spec(value);
    assert forall|i: int| 0 <= i < part.len() implies CharClass::AlnumDashUnderscoreDot.has_spec(
        #[trigger] part[i],
    ) by {
        let k = choose|k: int| 0 <= k < cleaned.len() && cleaned[k] == part[i];
        assert(cleaned[k] == part[i]);
    }
}

/// A bucket carries the prefix of its experiment, whole and in front, whenever it fits. So what an
/// experiment leaves behind can be found by its prefix.
pub proof fn lemma_bucket_carries_its_prefix(prefix: Seq<char>, resource_id: Seq<char>)
    requires
        dns_part_spec(prefix).len() > 0,
        dns_part_spec(resource_id).len() > 0,
        dns_part_spec(prefix).len() + 1 + dns_part_spec(resource_id).len() <= 63,
    ensures
        s3_bucket_name_spec(prefix, resource_id) == dns_part_spec(prefix) + "-"@ + dns_part_spec(
            resource_id,
        ),
{
    reveal_strlit("-");
    let p = dns_part_spec(prefix);
    let suffix = dns_part_spec(resource_id);
    let name = p + "-"@ + suffix;
    lemma_dns_part_shape(prefix);
    lemma_dns_part_shape(resource_id);
    assert(text::head_spec(p, prefix_room(63, suffix.len() as int)) =~= p);
    assert(limited_name(p, suffix, 63) == name);
    assert(pad_three(name) =~= name);
    assert(name[0] == p[0] && name.last() == suffix.last());
    lemma_trim_class_keeps(name, CharClass::Just('-'));
}

/// A table carries the prefix of its experiment in the same way.
pub proof fn lemma_table_carries_its_prefix(prefix: Seq<char>, resource_id: Seq<char>)
    requires
        table_part_spec(prefix).len() > 0,
        table_part_spec(resource_id).len() > 0,
        table_part_spec(prefix).len() + 1 + table_part_spec(resource_id).len() <= 255,
    ensures
        dynamodb_table_name_spec(prefix, resource_id) == table_part_spec(prefix) + "-"@
            + table_part_spec(resource_id),
{
    reveal_strlit("-");
    let p = table_part_spec(prefix);
    let suffix = table_part_spec(resource_id);
    assert(text::head_spec(p, prefix_room(255, suffix.len() as int)) =~= p);
    assert(pad_three(p + "-"@ + suffix) =~= p + "-"@ + suffix);
}

/// A resource id has at most 42 characters, so it always leaves room for a prefix in a bucket name
/// and in a table name.
pub proof fn lemma_resource_id_is_short(
    run_id: Seq<char>,
    instance_id: Seq<char>,
    process_id: nat,
    now_nanos: nat,
)
    ensures
        unique_resource_id_spec(run_id, instance_id, process_id, now_nanos).len() <= 42,
{
    reveal_strlit("-");
}

/// A cleaned directory name holds no path separator.
pub proof fn lemma_path_part_has_no_separator(value: Seq<char>)
    ensures
        path_part_spec(value).len() == value.len(),
        !path_part_spec(value).contains('/'),
{
    let part = path_part_spec(value);
    assert forall|i: int| 0 <= i < part.len() implies #[trigger] part[i] != '/' by {
        assert(CharClass::AlnumDashUnderscoreDot.has_spec(part[i]));
    }
}

// ---------------------------------------------------------------------------------------------
// Paths, ids and ports
// ---------------------------------------------------------------------------------------------
/// A path that begins at the root stands for itself; any other lies in the directory it is joined to,
/// with one slash between.
pub proof fn lemma_paths_are_joined(base: Seq<char>, part: Seq<char>)
    ensures
        part.len() > 0 && part[0] == '/' ==> path_join_spec(base, part) == part,
        !(part.len() > 0 && part[0] == '/') && base.len() == 0 ==> path_join_spec(base, part) == part,
        !(part.len() > 0 && part[0] == '/') && base.len() > 0 && base.last() == '/'
            ==> path_join_spec(base, part) == base + part,
        !(part.len() > 0 && part[0] == '/') && base.len() > 0 && base.last() != '/'
            ==> path_join_spec(base, part) == base + "/"@ + part,
{
    if base.len() == 0 {
        assert(base + part =~= part);
    }
}

/// The parts of a path and the ids keep the characters that they may have where they stand; a part has
/// an underscore and an id a dash in the place of each other.
pub proof fn lemma_parts_and_ids(value: Seq<char>)
    ensures
        path_part_spec(value).len() == value.len(),
        id_spec(value).len() == value.len(),
        forall|i: int|
            #![trigger path_part_spec(value)[i]]
            0 <= i < value.len() ==> path_part_spec(value)[i] == (if text::is_alnum_spec(value[i])
                || value[i] == '-' || value[i] == '_' || value[i] == '.' {
                value[i]
            } else {
                '_'
            }),
        forall|i: int|
            #![trigger id_spec(value)[i]]
            0 <= i < value.len() ==> id_spec(value)[i] == (if text::is_alnum_spec(value[i])
                || value[i] == '-' || value[i] == '_' {
                value[i]
            } else {
                '-'
            }),
{
}

/// The directory of a run lies in the directory of the runs.
pub proof fn lemma_run_directories(work_dir: Seq<char>, run_id: Seq<char>)
    requires
        work_dir.len() > 0,
        work_dir.last() != '/',
    ensures
        run_dir_spec(work_dir, run_id) == work_dir + "/"@ + "runs"@ + "/"@ + path_part_spec(run_id),
{
    reveal_strlit("runs");
    reveal_strlit("/");
    let runs = path_join_spec(work_dir, "runs"@);
    assert("runs"@[0] == 'r');
    assert(runs.last() == 's');
    lemma_path_part_has_no_separator(run_id);
    let part = path_part_spec(run_id);
    if part.len() > 0 {
        assert(part[0] != '/');
    }
    lemma_paths_are_joined(work_dir, "runs"@);
    lemma_paths_are_joined(runs, part);
}

/// The id of resources is made of up to 16 characters of the run, up to 8 of the instance and the last
/// 16 digits of the process and the time.
pub proof fn lemma_resource_id_parts(
    run_id: Seq<char>,
    instance_id: Seq<char>,
    process_id: nat,
    now_nanos: nat,
)
    ensures
        ({
            let run = dns_part_spec(run_id);
            let instance = dns_part_spec(instance_id);
            let digits = text::hex(process_id) + text::hex(now_nanos);
            unique_resource_id_spec(run_id, instance_id, process_id, now_nanos) == (if run.len() <= 16 {
                run
            } else {
                run.take(16)
            }) + "-"@ + (if instance.len() <= 8 {
                instance
            } else {
                instance.take(8)
            }) + "-"@ + (if digits.len() <= 16 {
                digits
            } else {
                digits.skip(digits.len() - 16)
            })
        }),
{
    let run = dns_part_spec(run_id);
    let instance = dns_part_spec(instance_id);
    let digits = text::hex(process_id) + text::hex(now_nanos);
    text::lemma_head_and_tail(run, 16);
    text::lemma_head_and_tail(instance, 8);
    text::lemma_head_and_tail(digits, 16);
}

/// Whether a text can be the name of a host: it is not blank and has no colon, slash or blank.
pub open spec fn is_host(host: Seq<char>) -> bool {
    &&& host.len() > 0
    &&& forall|i: int|
        0 <= i < host.len() ==> (#[trigger] host[i]) != ':' && host[i] != '/'
            && !text::is_space_spec(host[i])
}

proof fn lemma_port_behind_colon(host: Seq<char>, n: nat)
    requires
        is_host(host),
    ensures
        ({
            let rest = host + ":"@ + text::dec(n);
            &&& !rest.contains('/')
            &&& text::after_last_spec(rest, ":"@) == Some(text::dec(n))
            &&& rest.len() > 0 && !text::is_space_spec(rest[0]) && !text::is_space_spec(rest.last())
        }),
{
    reveal_strlit(":");
    text::lemma_dec_reads_back(n);
    let digits = text::dec(n);
    let rest = host + ":"@ + digits;
    let h = host.len() as int;
    assert(rest[h] == ':');
    assert forall|i: int| 0 <= i < rest.len() implies (#[trigger] rest[i]) != '/' && (rest[i] == ':'
        <==> i == h) && (i != h ==> !text::is_space_spec(rest[i])) by {
        if i < h {
            assert(rest[i] == host[i]);
        } else if i > h {
            assert(rest[i] == digits[i - h - 1]);
            assert(text::is_digit_spec(digits[i - h - 1]));
        }
    }
    text::lemma_after_the_last(rest, ":"@);
    assert(rest.subrange(h, h + 1) =~= ":"@);
    assert(text::occurs_at(rest, ":"@, h));
    let at = choose|at: int|
        text::last_at(rest, ":"@, text::after_last_spec(rest, ":"@)->0, at);
    assert(rest.subrange(at, at + 1)[0] == ':');
    assert(rest[at] == ':');
    assert(at == h);
    assert(rest.skip(h + 1) =~= digits);
}

proof fn lemma_after_a_scheme(scheme: Seq<char>, rest: Seq<char>)
    requires
        is_host(scheme),
        !rest.contains('/'),
    ensures
        text::after_last_spec(scheme + "://"@ + rest, "://"@) == Some(rest),
        text::after_last_spec(rest, "://"@) is None,
{
    reveal_strlit("://");
    let mark = "://"@;
    assert(mark.len() == 3 && mark[0] == ':' && mark[1] == '/' && mark[2] == '/');
    text::lemma_after_the_last(rest, mark);
    if text::contains_spec(rest, mark) {
        let i = choose|i: int| #[trigger] text::occurs_at(rest, mark, i);
        assert(rest.subrange(i, i + 3)[1] == rest[i + 1]);
        assert(rest.contains('/'));
    }
    let whole = scheme + mark + rest;
    let h = scheme.len() as int;
    text::lemma_after_the_last(whole, mark);
    assert(whole.subrange(h, h + 3) =~= mark);
    assert(text::occurs_at(whole, mark, h));
    let at = choose|at: int| text::last_at(whole, mark, text::after_last_spec(whole, mark)->0, at);
    assert(at >= h);
    if at > h {
        assert(whole.subrange(at, at + 3)[1] == whole[at + 1]);
        assert(whole.subrange(at, at + 3)[0] == whole[at]);
        if at == h + 1 {
            assert(whole[at] == mark[1]);
        } else {
            assert(whole[at + 1] == rest[at + 1 - h - 3]);
            assert(rest.contains('/'));
        }
    }
    assert(whole.skip(h + 3) =~= rest);
}

proof fn lemma_port_by_pieces(endpoint: Seq<char>, rest: Seq<char>, port: Seq<char>, n: nat)
    requires
        text::trim_spec(endpoint) == endpoint,
        text::after_last_spec(endpoint, "://"@) == Some(rest) || (text::after_last_spec(
            endpoint,
            "://"@,
        ) is None && rest == endpoint),
        text::before_spec(rest, '/') == rest,
        text::after_last_spec(rest, ":"@) == Some(port),
        port == text::dec(n),
    ensures
        n <= 65_535 ==> endpoint_port_spec(endpoint) == Some(n),
        n > 65_535 ==> endpoint_port_spec(endpoint) is None,
{
    text::lemma_number_reads_back(n, u16::MAX as nat);
}

proof fn lemma_no_blanks_around(s: Seq<char>)
    requires
        s.len() > 0,
        !text::is_space_spec(s[0]),
        !text::is_space_spec(s.last()),
    ensures
        text::trim_spec(s) == s,
{
    text::lemma_trim_leaves_the_core(s, CharClass::Space);
}

/// The port of an endpoint is the number behind the colon of its host, with or without a scheme in
/// front. A number that is no port is none.
pub proof fn lemma_ports_are_found(scheme: Seq<char>, host: Seq<char>, n: nat)
    requires
        is_host(host),
        is_host(scheme),
    ensures
        n <= 65_535 ==> {
            &&& endpoint_port_spec(host + ":"@ + text::dec(n)) == Some(n)
            &&& endpoint_port_spec(scheme + "://"@ + (host + ":"@ + text::dec(n))) == Some(n)
        },
        n > 65_535 ==> {
            &&& endpoint_port_spec(host + ":"@ + text::dec(n)) is None
            &&& endpoint_port_spec(scheme + "://"@ + (host + ":"@ + text::dec(n))) is None
        },
{
    let rest = host + ":"@ + text::dec(n);
    let whole = scheme + "://"@ + rest;
    lemma_port_behind_colon(host, n);
    lemma_after_a_scheme(scheme, rest);
    text::lemma_before_and_after(rest, '/');
    lemma_no_blanks_around(rest);
    assert(whole[0] == scheme[0] && whole.last() == rest.last());
    lemma_no_blanks_around(whole);
    lemma_port_by_pieces(rest, rest, text::dec(n), n);
    lemma_port_by_pieces(whole, rest, text::dec(n), n);
}

} // verus!
