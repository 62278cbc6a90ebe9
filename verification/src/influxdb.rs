//! Connection settings of the time series database and the tags of the
//! measurements written to it.
use vstd::prelude::*;

verus! {

/// The settings the database client is made with.
#[derive(Debug, Clone)]
pub struct InfluxSettings {
    pub org: String,
    pub bucket: String,
    pub token: String,
    pub url: String,
}

/// Why the settings could not be resolved.
#[derive(Debug, Clone, Copy, PartialEq, Eq)]
pub enum SettingsError {
    /// The environment names no server URL.
    MissingUrl,
}

/// The value a setting takes: the environment's, where it gives one, else the
/// one passed in.
pub open spec fn setting_value(from_env: Option<Seq<char>>, given: Seq<char>) -> Seq<char> {
    match from_env {
        Some(v) => v,
        None => given,
    }
}

/// The view of an optional string.
pub open spec fn opt_view(s: Option<String>) -> Option<Seq<char>> {
    match s {
        Some(v) => Some(v@),
        None => None,
    }
}

/// A value the environment gives is the setting, whatever value is passed in;
/// the passed-in value is used only where the environment gives none.
pub proof fn lemma_environment_wins(from_env: Option<Seq<char>>, given: Seq<char>)
    ensures
        from_env matches Some(v) ==> setting_value(from_env, given) == v,
        from_env is None ==> setting_value(from_env, given) == given,
{
}

/// The environment's value of a setting, or the given one where the
/// environment has none.
pub fn setting_or(from_env: Option<String>, given: String) -> (value: String)
    ensures
        value@ == setting_value(opt_view(from_env), given@),
        from_env matches Some(v) ==> value@ == v@,
        from_env is None ==> value@ == given@,
{
    match from_env {
        Some(v) => v,
        None => given,
    }
}

/// Resolves the database settings. The organisation, bucket and token read
/// from the environment take precedence over the ones passed in; the server
/// URL can only come from the environment, and without it the settings are
/// refused.
pub fn resolve_settings(
    org_env: Option<String>,
    bucket_env: Option<String>,
    token_env: Option<String>,
    url_env: Option<String>,
    org: String,
    bucket: String,
    token: String,
) -> (res: Result<InfluxSettings, SettingsError>)
    ensures
        url_env is None <==> res == Err::<InfluxSettings, SettingsError>(SettingsError::MissingUrl),
        match res {
            Ok(s) => {
                &&& url_env is Some
                &&& s.url@ == url_env->0@
                &&& s.org@ == setting_value(opt_view(org_env), org@)
                &&& s.bucket@ == setting_value(opt_view(bucket_env), bucket@)
                &&& s.token@ == setting_value(opt_view(token_env), token@)
                &&& s.org@ == (if org_env is Some { org_env->0@ } else { org@ })
                &&& s.bucket@ == (if bucket_env is Some { bucket_env->0@ } else { bucket@ })
                &&& s.token@ == (if token_env is Some { token_env->0@ } else { token@ })
            },
            Err(e) => e == SettingsError::MissingUrl && url_env is None,
        },
{
    match url_env {
        None => Err(SettingsError::MissingUrl),
        Some(url) => {
            let org = setting_or(org_env, org);
            let bucket = setting_or(bucket_env, bucket);
            let token = setting_or(token_env, token);
            Ok(InfluxSettings { org, bucket, token, url })
        },
    }
}

/// The character of decimal digit `d`.
pub open spec fn digit_char(d: nat) -> char {
    seq!['0', '1', '2', '3', '4', '5', '6', '7', '8', '9'][d as int]
}

/// The decimal notation of `n`, without leading zeros.
pub open spec fn decimal(n: nat) -> Seq<char>
    decreases n,
{
    if n < 10 {
        seq![digit_char(n)]
    } else {
        decimal(n / 10).push(digit_char(n % 10))
    }
}

/// The tag value that marks the measurements of path `path`.
pub open spec fn spec_path_tag(path: nat) -> Seq<char> {
    seq!['p', 'a', 't', 'h', '_'] + decimal(path)
}

/// Whether `c` is a decimal digit.
pub open spec fn is_decimal_digit(c: char) -> bool {
    '0' <= c && c <= '9'
}

/// The number that the decimal digits `digits` spell, most significant first.
pub open spec fn decimal_value(digits: Seq<char>) -> int
    decreases digits.len(),
{
    if digits.len() == 0 {
        0
    } else {
        decimal_value(digits.drop_last()) * 10 + (digits.last() as int - '0' as int)
    }
}

proof fn lemma_digit_char(d: nat)
    requires
        d < 10,
    ensures
        is_decimal_digit(digit_char(d)),
        digit_char(d) as int - '0' as int == d,
{
    let ds = seq!['0', '1', '2', '3', '4', '5', '6', '7', '8', '9'];
    assert(ds[0] == '0' && ds[1] == '1' && ds[2] == '2' && ds[3] == '3' && ds[4] == '4');
    assert(ds[5] == '5' && ds[6] == '6' && ds[7] == '7' && ds[8] == '8' && ds[9] == '9');
}

proof fn lemma_decimal_reads_back(n: nat)
    ensures
        decimal(n).len() >= 1,
        forall|i: int| 0 <= i < decimal(n).len() ==> is_decimal_digit(#[trigger] decimal(n)[i]),
        decimal_value(decimal(n)) == n,
        n > 0 ==> decimal(n)[0] != '0',
    decreases n,
{
    if n < 10 {
        lemma_digit_char(n);
        assert(decimal(n).drop_last() =~= Seq::<char>::empty());
        assert(decimal_value(Seq::<char>::empty()) == 0);
        assert(decimal(n).last() == digit_char(n));
    } else {
        let q = (n / 10) as nat;
        let r = (n % 10) as nat;
        lemma_decimal_reads_back(q);
        lemma_digit_char(r);
        assert(decimal(n) == decimal(q).push(digit_char(r)));
        assert(decimal(n).drop_last() =~= decimal(q));
        assert(decimal(n).last() == digit_char(r));
        assert(decimal_value(decimal(n)) == decimal_value(decimal(q)) * 10 + r);
        assert(q * 10 + r == n);
        assert(decimal(n)[0] == decimal(q)[0]);
        assert forall|i: int| 0 <= i < decimal(n).len() implies is_decimal_digit(
            #[trigger] decimal(n)[i],
        ) by {
            if i < decimal(q).len() {
                assert(decimal(n)[i] == decimal(q)[i]);
            }
        }
    }
}

/// The tag of path `n` is `path_` followed by decimal digits with no leading
/// zero, and those digits read back as `n`.
pub proof fn lemma_path_tag_reads_back(n: nat)
    ensures
        spec_path_tag(n).len() > 5,
        spec_path_tag(n).take(5) == seq!['p', 'a', 't', 'h', '_'],
        forall|i: int|
            5 <= i < spec_path_tag(n).len() ==> is_decimal_digit(#[trigger] spec_path_tag(n)[i]),
        decimal_value(spec_path_tag(n).skip(5)) == n,
        n > 0 ==> spec_path_tag(n)[5] != '0',
{
    lemma_decimal_reads_back(n);
    let prefix = seq!['p', 'a', 't', 'h', '_'];
    assert(spec_path_tag(n).take(5) =~= prefix);
    assert(spec_path_tag(n).skip(5) =~= decimal(n));
    assert forall|i: int| 5 <= i < spec_path_tag(n).len() implies is_decimal_digit(
        #[trigger] spec_path_tag(n)[i],
    ) by {
        assert(spec_path_tag(n)[i] == decimal(n)[i - 5]);
    }
    if n > 0 {
        assert(spec_path_tag(n)[5] == decimal(n)[0]);
    }
}

/// Distinct paths carry distinct tags.
pub proof fn lemma_path_tags_distinct(n1: nat, n2: nat)
    requires
        n1 != n2,
    ensures
        spec_path_tag(n1) != spec_path_tag(n2),
{
    lemma_path_tag_reads_back(n1);
    lemma_path_tag_reads_back(n2);
}

fn digit_str(d: usize) -> (s: &'static str)
    requires
        d < 10,
    ensures
        s@ == seq![digit_char(d as nat)],
{
    proof {
        reveal_strlit("0");
        reveal_strlit("1");
        reveal_strlit("2");
        reveal_strlit("3");
        reveal_strlit("4");
        reveal_strlit("5");
        reveal_strlit("6");
        reveal_strlit("7");
        reveal_strlit("8");
        reveal_strlit("9");
    }
    let s = if d == 0 {
        "0"
    } else if d == 1 {
        "1"
    } else if d == 2 {
        "2"
    } else if d == 3 {
        "3"
    } else if d == 4 {
        "4"
    } else if d == 5 {
        "5"
    } else if d == 6 {
        "6"
    } else if d == 7 {
        "7"
    } else if d == 8 {
        "8"
    } else {
        "9"
    };
    assert(s@ =~= seq![digit_char(d as nat)]);
    s
}

fn append_decimal(s: &mut String, n: usize)
    ensures
        final(s)@ == old(s)@ + decimal(n as nat),
    decreases n,
{
    if n >= 10 {
        append_decimal(s, n / 10);
    }
    let d = digit_str(n % 10);
    s.append(d);
    assert(final(s)@ =~= old(s)@ + decimal(n as nat)) by {
        if n >= 10 {
            assert(decimal(n as nat) == decimal((n / 10) as nat).push(digit_char((n % 10) as nat)));
        }
    }
}

/// The tag value of the measurements of path `path`: `path_` followed by the
/// path's number in decimal.
pub fn path_tag(path: usize) -> (tag: String)
    ensures
        tag@ == spec_path_tag(path as nat),
{
    let mut tag = String::from_str("path_");
    proof {
        reveal_strlit("path_");
    }
    append_decimal(&mut tag, path);
    assert(tag@ =~= spec_path_tag(path as nat));
    tag
}

} // verus!
