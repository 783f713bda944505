//! The registry client's compute half: decoding a registry version listing
//! and selecting the latest non-withdrawn release.

use vstd::prelude::*;

use crate::versions::{canon_version, spec_version_canon, spec_version_ok};

verus! {

/// One version record out of a registry response, in received order:
/// the registry lists the most recent release first.
pub struct VersionRecord {
    pub crate_name: String,
    pub num: String,
    pub yanked: bool,
    pub updated_at: String,
}

/// Mathematical model of a `VersionRecord`.
#[verifier::ext_equal]
pub struct VersionRecordView {
    pub crate_name: Seq<char>,
    pub num: Seq<char>,
    pub yanked: bool,
    pub updated_at: Seq<char>,
}

impl View for VersionRecord {
    type V = VersionRecordView;

    open spec fn view(&self) -> VersionRecordView {
        VersionRecordView {
            crate_name: self.crate_name@,
            num: self.num@,
            yanked: self.yanked,
            updated_at: self.updated_at@,
        }
    }
}

/// The outcome of one registry query: the crate's name, the canonical form
/// of its latest non-withdrawn version, and that release's update timestamp
/// with any fractional seconds dropped.
pub struct RegistryVersionInfo {
    pub crate_name: String,
    pub latest_version: String,
    pub last_updated: String,
}

/// Mathematical model of a `RegistryVersionInfo`.
#[verifier::ext_equal]
pub struct RegistryVersionInfoView {
    pub crate_name: Seq<char>,
    pub latest_version: Seq<char>,
    pub last_updated: Seq<char>,
}

impl View for RegistryVersionInfo {
    type V = RegistryVersionInfoView;

    open spec fn view(&self) -> RegistryVersionInfoView {
        RegistryVersionInfoView {
            crate_name: self.crate_name@,
            latest_version: self.latest_version@,
            last_updated: self.last_updated@,
        }
    }
}

/// The value reported when a response holds no eligible record at all.
pub open spec fn spec_default_info() -> RegistryVersionInfoView {
    RegistryVersionInfoView {
        crate_name: Seq::<char>::empty(),
        latest_version: "0.0.0"@,
        last_updated: Seq::<char>::empty(),
    }
}

impl Default for RegistryVersionInfo {
    /// The empty outcome: version `0.0.0`, empty name and timestamp.
    fn default() -> (r: RegistryVersionInfo)
        ensures
            r@ == spec_default_info(),
    {
        RegistryVersionInfo {
            crate_name: String::new(),
            latest_version: String::from_str("0.0.0"),
            last_updated: String::new(),
        }
    }
}

/// Why one dependency's registry query failed. Each variant carries a short
/// description of the underlying cause.
#[derive(Debug)]
pub enum FetchError {
    NetworkError(String),
    EncodingError(String),
    ParseError(String),
}

/// The number of leading characters before the first `.`, or the whole
/// length when no `.` occurs.
pub open spec fn spec_first_dot(s: Seq<char>) -> int
    decreases s.len(),
{
    if s.len() == 0 {
        0
    } else if s[0] == '.' {
        0
    } else {
        1 + spec_first_dot(s.drop_first())
    }
}

/// The prefix of the string up to, and not including, its first `.`.
pub open spec fn spec_dot_prefix(s: Seq<char>) -> Seq<char> {
    s.take(spec_first_dot(s))
}

proof fn lemma_first_dot_at(s: Seq<char>, i: int)
    requires
        0 <= i <= s.len(),
        forall|j: int| 0 <= j < i ==> s[j] != '.',
        i == s.len() || s[i] == '.',
    ensures
        spec_first_dot(s) == i,
    decreases i,
{
    if s.len() == 0 {
    } else if s[0] == '.' {
    } else {
        lemma_first_dot_at(s.drop_first(), i - 1);
    }
}

/// Drops the fractional-second component of a timestamp: the result is the
/// prefix that precedes the first `.`, or the whole string when no `.`
/// occurs.
pub fn truncate_timestamp(s: &str) -> (r: String)
    ensures
        r@ == spec_dot_prefix(s@),
{
    let n = s.unicode_len();
    let mut i: usize = 0;
    loop
        invariant_except_break
            i <= n,
            n == s@.len(),
            forall|j: int| 0 <= j < i ==> s@[j] != '.',
        ensures
            i <= n,
            n == s@.len(),
            forall|j: int| 0 <= j < i ==> s@[j] != '.',
            i == n || s@[i as int] == '.',
        decreases n - i,
    {
        if i == n {
            break ;
        }
        if s.get_char(i) == '.' {
            break ;
        }
        i += 1;
    }
    proof {
        lemma_first_dot_at(s@, i as int);
    }
    let prefix = s.substring_char(0, i);
    let r = String::from_str(prefix);
    proof {
        assert(prefix@ =~= s@.take(i as int));
    }
    r
}

/// Views of a record vector, in received order.
pub open spec fn view_records(s: Seq<VersionRecord>) -> Seq<VersionRecordView> {
    s.map_values(|r: VersionRecord| r@)
}

/// The position of the first non-withdrawn record, in received order.
pub open spec fn spec_first_eligible(rs: Seq<VersionRecordView>) -> Option<int>
    decreases rs.len(),
{
    if rs.len() == 0 {
        None
    } else if !rs[0].yanked {
        Some(0int)
    } else {
        match spec_first_eligible(rs.drop_first()) {
            None => None,
            Some(i) => Some(i + 1),
        }
    }
}

/// Whether every non-withdrawn record carries a well-formed version string.
pub open spec fn spec_all_parse(rs: Seq<VersionRecordView>) -> bool {
    forall|i: int| 0 <= i < rs.len() && !rs[i].yanked ==> spec_version_ok(rs[i].num)
}

/// The outcome built out of one record.
pub open spec fn spec_info_of(r: VersionRecordView) -> RegistryVersionInfoView {
    RegistryVersionInfoView {
        crate_name: r.crate_name,
        latest_version: spec_version_canon(r.num),
        last_updated: spec_dot_prefix(r.updated_at),
    }
}

/// The selection policy's result: the most recent non-withdrawn record —
/// the first one in received order — or the default value when every record
/// is withdrawn.
pub open spec fn spec_select(rs: Seq<VersionRecordView>) -> RegistryVersionInfoView {
    match spec_first_eligible(rs) {
        None => spec_default_info(),
        Some(i) => spec_info_of(rs[i]),
    }
}

proof fn lemma_first_eligible_props(rs: Seq<VersionRecordView>)
    ensures
        match spec_first_eligible(rs) {
            Some(i) => 0 <= i < rs.len() && !rs[i].yanked && (forall|j: int|
                0 <= j < i ==> rs[j].yanked),
            None => forall|j: int| 0 <= j < rs.len() ==> rs[j].yanked,
        },
    decreases rs.len(),
{
    if rs.len() == 0 {
    } else if !rs[0].yanked {
    } else {
        let sub = rs.drop_first();
        lemma_first_eligible_props(sub);
        match spec_first_eligible(sub) {
            Some(i) => {
                assert(rs[i + 1] == sub[i]);
                assert forall|j: int| 0 <= j < i + 1 implies rs[j].yanked by {
                    if j > 0 {
                        assert(rs[j] == sub[j - 1]);
                    }
                }
            },
            None => {
                assert forall|j: int| 0 <= j < rs.len() implies rs[j].yanked by {
                    if j > 0 {
                        assert(rs[j] == sub[j - 1]);
                    }
                }
            },
        }
    }
}

/// A withdrawn record is never selected: whenever some record is not
/// withdrawn, the selected outcome is built out of a non-withdrawn record.
pub proof fn lemma_withdrawn_never_selected(rs: Seq<VersionRecordView>)
    requires
        exists|i: int| 0 <= i < rs.len() && !rs[i].yanked,
    ensures
        exists|i: int|
            0 <= i < rs.len() && !rs[i].yanked && spec_select(rs) == spec_info_of(rs[i]),
{
    lemma_first_eligible_props(rs);
    match spec_first_eligible(rs) {
        Some(i) => {
            assert(0 <= i < rs.len() && !rs[i].yanked && spec_select(rs) == spec_info_of(
                rs[i],
            ));
        },
        None => {
            assert(false);
        },
    }
}

/// When every record is withdrawn, the selection falls back to the default
/// value, whose version is `0.0.0`.
pub proof fn lemma_all_withdrawn_selects_default(rs: Seq<VersionRecordView>)
    requires
        forall|i: int| 0 <= i < rs.len() ==> rs[i].yanked,
    ensures
        spec_select(rs) == spec_default_info(),
{
    lemma_first_eligible_props(rs);
    match spec_first_eligible(rs) {
        Some(i) => {
            assert(!rs[i].yanked);
            assert(false);
        },
        None => {
        },
    }
}

/// Applies the selection policy to a decoded version listing.
///
/// The listing is scanned in reverse of received order, skipping withdrawn
/// records and overwriting the candidate with each eligible one, so the scan
/// ends at the most recent non-withdrawn record. Every non-withdrawn
/// version string is parsed along the way; a malformed one fails this
/// query alone.
///
/// Deliberately, the policy does not restrict the selection to the declared
/// dependency's release channel: a pre-release can be selected here and be
/// reported against a stable requirement.
pub fn select_latest(records: &Vec<VersionRecord>) -> (r: Result<
    RegistryVersionInfo,
    FetchError,
>)
    ensures
        r.is_ok() == spec_all_parse(view_records(records@)),
        r matches Ok(info) ==> info@ == spec_select(view_records(records@)),
        r matches Err(e) ==> e is ParseError,
{
    let ghost rs = view_records(records@);
    let n = records.len();
    let mut latest = RegistryVersionInfo::default();
    let mut k: usize = 0;
    while k < n
        invariant
            k <= n,
            n == records.len(),
            rs == view_records(records@),
            rs.len() == n,
            forall|j: int| n - k <= j < n && !rs[j].yanked ==> spec_version_ok(rs[j].num),
            latest@ == spec_select(rs.subrange((n - k) as int, n as int)),
        decreases n - k,
    {
        let idx = n - 1 - k;
        let ghost prev = rs.subrange((n - k) as int, n as int);
        let ghost cur = rs.subrange(idx as int, n as int);
        proof {
            assert(cur.drop_first() =~= prev);
        }
        let rec = &records[idx];
        if !rec.yanked {
            match canon_version(rec.num.as_str()) {
                None => {
                    return Err(
                        FetchError::ParseError(
                            String::from_str("malformed version string in registry response"),
                        ),
                    );
                },
                Some(c) => {
                    let t = truncate_timestamp(rec.updated_at.as_str());
                    latest = RegistryVersionInfo {
                        crate_name: rec.crate_name.clone(),
                        latest_version: c,
                        last_updated: t,
                    };
                    assert(latest@ =~= spec_info_of(rs[idx as int]));
                },
            }
        }
        proof {
            if !rs[idx as int].yanked {
                assert(spec_first_eligible(cur) == Some(0int));
            } else {
                lemma_first_eligible_props(prev);
                match spec_first_eligible(prev) {
                    None => {
                        assert(spec_first_eligible(cur) is None);
                    },
                    Some(i) => {
                        assert(spec_first_eligible(cur) == Some(i + 1));
                        assert(cur[i + 1] == prev[i]);
                    },
                }
            }
        }
        k += 1;
    }
    proof {
        assert(rs.subrange(0, n as int) =~= rs);
    }
    Ok(latest)
}

#[verifier::external_type_specification]
#[verifier::external_body]
pub struct ExJsonValue(serde_json::Value);

/// Whether `serde_json::from_str::<serde_json::Value>` accepts the string.
pub uninterp spec fn spec_json_ok(s: Seq<char>) -> bool;

/// The JSON value `serde_json::from_str::<serde_json::Value>` parses the
/// string into, when it accepts it.
pub uninterp spec fn spec_json_of(s: Seq<char>) -> serde_json::Value;

/// What `serde_json::Value::pointer` resolves the path to inside the value.
pub uninterp spec fn spec_pointer_at(v: serde_json::Value, p: Seq<char>) -> Option<
    serde_json::Value,
>;

/// The element list `serde_json::Value::as_array` yields for the value.
pub uninterp spec fn spec_as_array_of(v: serde_json::Value) -> Option<Seq<serde_json::Value>>;

/// The characters `serde_json::Value::as_str` yields for the value.
pub uninterp spec fn spec_as_str_of(v: serde_json::Value) -> Option<Seq<char>>;

/// The boolean `serde_json::Value::as_bool` yields for the value.
pub uninterp spec fn spec_as_bool_of(v: serde_json::Value) -> Option<bool>;

/// Relies on `serde_json::from_str::<serde_json::Value>`: parsing is a pure
/// function of the string, rejects malformed input with an error, and never
/// panics (nesting depth is capped with an error, not a stack overflow).
#[verifier::external_body]
pub(crate) fn json_from_str(s: &str) -> (r: Result<serde_json::Value, FetchError>)
    ensures
        r.is_ok() == spec_json_ok(s@),
        r matches Ok(v) ==> v == spec_json_of(s@),
        r matches Err(e) ==> e is ParseError,
{
    match serde_json::from_str::<serde_json::Value>(s) {
        Ok(v) => Ok(v),
        Err(e) => Err(FetchError::ParseError(e.to_string())),
    }
}

/// Relies on `serde_json::Value::pointer`: resolves a JSON Pointer path
/// inside a value, `None` when nothing stands there; a pure function of the
/// value and the path.
pub assume_specification<'a>[ serde_json::Value::pointer ](
    v: &'a serde_json::Value,
    pointer: &str,
) -> (r: Option<&'a serde_json::Value>)
    ensures
        match r {
            Some(x) => spec_pointer_at(*v, pointer@) == Some(*x),
            None => spec_pointer_at(*v, pointer@) is None,
        },
;

/// Relies on `serde_json::Value::as_array`: the element list when the value
/// is a JSON array, `None` otherwise; a pure function of the value.
pub assume_specification<'a>[ serde_json::Value::as_array ](v: &'a serde_json::Value) -> (r:
    Option<&'a Vec<serde_json::Value>>)
    ensures
        match r {
            Some(a) => spec_as_array_of(*v) == Some(a@),
            None => spec_as_array_of(*v) is None,
        },
;

/// Relies on `serde_json::Value::as_str`: the characters when the value is
/// a JSON string, `None` otherwise; a pure function of the value.
pub assume_specification<'a>[ serde_json::Value::as_str ](v: &'a serde_json::Value) -> (r: Option<
    &'a str,
>)
    ensures
        match r {
            Some(s) => spec_as_str_of(*v) == Some(s@),
            None => spec_as_str_of(*v) is None,
        },
;

/// Relies on `serde_json::Value::as_bool`: the value when it is a JSON
/// boolean, `None` otherwise; a pure function of the value.
pub assume_specification[ serde_json::Value::as_bool ](v: &serde_json::Value) -> (r: Option<bool>)
    ensures
        r == spec_as_bool_of(*v),
;

/// The string under the JSON Pointer path, when one stands there.
pub open spec fn spec_field_str(v: serde_json::Value, p: Seq<char>) -> Option<Seq<char>> {
    match spec_pointer_at(v, p) {
        None => None,
        Some(f) => spec_as_str_of(f),
    }
}

/// The boolean under the JSON Pointer path, when one stands there.
pub open spec fn spec_field_bool(v: serde_json::Value, p: Seq<char>) -> Option<bool> {
    match spec_pointer_at(v, p) {
        None => None,
        Some(f) => spec_as_bool_of(f),
    }
}

/// The `versions` array of a decoded response, when the response holds one.
pub open spec fn spec_versions_array(v: serde_json::Value) -> Option<Seq<serde_json::Value>> {
    match spec_pointer_at(v, "/versions"@) {
        None => None,
        Some(arr) => spec_as_array_of(arr),
    }
}

/// Whether one element of the `versions` array carries every load-bearing
/// field: a `crate` name, a `num` version string, an `updated_at` timestamp
/// and a `yanked` flag.
pub open spec fn spec_elem_ok(e: serde_json::Value) -> bool {
    &&& spec_field_str(e, "/crate"@) is Some
    &&& spec_field_str(e, "/num"@) is Some
    &&& spec_field_str(e, "/updated_at"@) is Some
    &&& spec_field_bool(e, "/yanked"@) is Some
}

/// The record one element decodes to.
pub open spec fn spec_record_of(e: serde_json::Value) -> VersionRecordView {
    VersionRecordView {
        crate_name: spec_field_str(e, "/crate"@).unwrap(),
        num: spec_field_str(e, "/num"@).unwrap(),
        yanked: spec_field_bool(e, "/yanked"@).unwrap(),
        updated_at: spec_field_str(e, "/updated_at"@).unwrap(),
    }
}

/// Whether a decoded response has the version-listing shape: a `versions`
/// array whose every element carries its load-bearing fields.
pub open spec fn spec_records_ok(v: serde_json::Value) -> bool {
    &&& spec_versions_array(v) is Some
    &&& forall|i: int|
        0 <= i < spec_versions_array(v).unwrap().len() ==> spec_elem_ok(
            #[trigger] spec_versions_array(v).unwrap()[i],
        )
}

/// The records a well-shaped response decodes to, in received order.
pub open spec fn spec_records_of(v: serde_json::Value) -> Seq<VersionRecordView> {
    if spec_versions_array(v) is Some {
        spec_versions_array(v).unwrap().map_values(|e: serde_json::Value| spec_record_of(e))
    } else {
        Seq::empty()
    }
}

/// The string under the JSON Pointer path, when the value holds a JSON
/// string there.
fn get_string_field(v: &serde_json::Value, key: &str) -> (r: Option<String>)
    ensures
        match r {
            Some(s) => spec_field_str(*v, key@) == Some(s@),
            None => spec_field_str(*v, key@) is None,
        },
{
    match v.pointer(key) {
        None => None,
        Some(f) => match f.as_str() {
            None => None,
            Some(s) => Some(String::from_str(s)),
        },
    }
}

/// Decodes a parsed registry response into its version records, in
/// received order.
///
/// Succeeds exactly when the response holds a `versions` array whose
/// elements each carry a `crate` name, a `num` version string, a `yanked`
/// flag and an `updated_at` timestamp; other fields are accepted and
/// ignored, and the records are exactly the decoded fields. A response of
/// any other shape is a parse failure for this query alone.
pub fn extract_records(v: &serde_json::Value) -> (r: Result<Vec<VersionRecord>, FetchError>)
    ensures
        r.is_ok() == spec_records_ok(*v),
        r matches Ok(recs) ==> view_records(recs@) == spec_records_of(*v),
        r matches Err(e) ==> e is ParseError,
{
    let versions = match v.pointer("/versions") {
        Some(x) => x,
        None => {
            return Err(FetchError::ParseError(String::from_str("missing versions list")));
        },
    };
    let arr = match versions.as_array() {
        Some(a) => a,
        None => {
            return Err(FetchError::ParseError(String::from_str("versions is not a list")));
        },
    };
    let mut out: Vec<VersionRecord> = Vec::new();
    let n = arr.len();
    let mut i: usize = 0;
    while i < n
        invariant
            i <= n,
            n == arr.len(),
            spec_versions_array(*v) == Some(arr@),
            out@.len() == i,
            forall|j: int| 0 <= j < i ==> spec_elem_ok(#[trigger] arr@[j]),
            forall|j: int| 0 <= j < i ==> #[trigger] out@[j]@ == spec_record_of(arr@[j]),
        decreases n - i,
    {
        let elem = &arr[i];
        let crate_name = match get_string_field(elem, "/crate") {
            Some(s) => s,
            None => {
                proof {
                    assert(!spec_elem_ok(arr@[i as int]));
                    assert(!spec_records_ok(*v)) by {
                        if spec_records_ok(*v) {
                            assert(spec_versions_array(*v).unwrap() == arr@);
                            assert(spec_elem_ok(spec_versions_array(*v).unwrap()[i as int]));
                        }
                    }
                }
                return Err(FetchError::ParseError(String::from_str("missing crate name")));
            },
        };
        let num = match get_string_field(elem, "/num") {
            Some(s) => s,
            None => {
                proof {
                    assert(!spec_elem_ok(arr@[i as int]));
                    assert(!spec_records_ok(*v)) by {
                        if spec_records_ok(*v) {
                            assert(spec_versions_array(*v).unwrap() == arr@);
                            assert(spec_elem_ok(spec_versions_array(*v).unwrap()[i as int]));
                        }
                    }
                }
                return Err(FetchError::ParseError(String::from_str("missing version number")));
            },
        };
        let updated_at = match get_string_field(elem, "/updated_at") {
            Some(s) => s,
            None => {
                proof {
                    assert(!spec_elem_ok(arr@[i as int]));
                    assert(!spec_records_ok(*v)) by {
                        if spec_records_ok(*v) {
                            assert(spec_versions_array(*v).unwrap() == arr@);
                            assert(spec_elem_ok(spec_versions_array(*v).unwrap()[i as int]));
                        }
                    }
                }
                return Err(FetchError::ParseError(String::from_str("missing update timestamp")));
            },
        };
        let yanked = match elem.pointer("/yanked") {
            Some(y) => match y.as_bool() {
                Some(b) => b,
                None => {
                    proof {
                        assert(!spec_elem_ok(arr@[i as int]));
                        assert(!spec_records_ok(*v)) by {
                            if spec_records_ok(*v) {
                                assert(spec_versions_array(*v).unwrap() == arr@);
                                assert(spec_elem_ok(spec_versions_array(*v).unwrap()[i as int]));
                            }
                        }
                    }
                    return Err(
                        FetchError::ParseError(String::from_str("yanked flag is not a boolean")),
                    );
                },
            },
            None => {
                proof {
                    assert(!spec_elem_ok(arr@[i as int]));
                    assert(!spec_records_ok(*v)) by {
                        if spec_records_ok(*v) {
                            assert(spec_versions_array(*v).unwrap() == arr@);
                            assert(spec_elem_ok(spec_versions_array(*v).unwrap()[i as int]));
                        }
                    }
                }
                return Err(FetchError::ParseError(String::from_str("missing yanked flag")));
            },
        };
        out.push(VersionRecord { crate_name, num, yanked, updated_at });
        proof {
            assert(spec_elem_ok(arr@[i as int]));
            assert(out@[i as int]@ =~= spec_record_of(arr@[i as int]));
        }
        i += 1;
    }
    proof {
        assert(spec_versions_array(*v).unwrap() == arr@);
        assert forall|j: int|
            0 <= j < spec_versions_array(*v).unwrap().len() implies spec_elem_ok(
            #[trigger] spec_versions_array(*v).unwrap()[j],
        ) by {
            assert(spec_elem_ok(arr@[j]));
        }
        assert(spec_records_ok(*v));
        assert(view_records(out@) =~= spec_records_of(*v));
    }
    Ok(out)
}

/// Decodes one response body into its version records.
///
/// Succeeds exactly when the body is JSON of the version-listing shape; the
/// records are then exactly the decoded fields, in received order. Any
/// other body is a `ParseError` for this query alone.
pub fn decode_records(body: &str) -> (r: Result<Vec<VersionRecord>, FetchError>)
    ensures
        r.is_ok() == (spec_json_ok(body@) && spec_records_ok(spec_json_of(body@))),
        r matches Ok(recs) ==> view_records(recs@) == spec_records_of(spec_json_of(body@)),
        r matches Err(e) ==> e is ParseError,
{
    let v = match json_from_str(body) {
        Ok(v) => v,
        Err(e) => {
            return Err(e);
        },
    };
    extract_records(&v)
}

/// The registry client's whole compute step: decodes the response body and
/// applies the selection policy.
///
/// Succeeds exactly when the body is JSON of the version-listing shape and
/// every non-withdrawn version string is well formed; the outcome is then
/// the selection policy applied to the decoded records. Any other body is a
/// `ParseError` for this query alone.
pub fn latest_from_body(body: &str) -> (r: Result<RegistryVersionInfo, FetchError>)
    ensures
        r.is_ok() == (spec_json_ok(body@) && spec_records_ok(spec_json_of(body@))
            && spec_all_parse(spec_records_of(spec_json_of(body@)))),
        r matches Ok(info) ==> info@ == spec_select(spec_records_of(spec_json_of(body@))),
        r matches Err(e) ==> e is ParseError,
{
    let records = match decode_records(body) {
        Ok(rr) => rr,
        Err(e) => {
            return Err(e);
        },
    };
    select_latest(&records)
}

} // verus!
