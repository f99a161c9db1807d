//! Objects that rx itself puts together: deployments, probes, and the cache.

use vstd::prelude::*;

use crate::cli::exit::{error_exit_of, exit_for};
use crate::deploy::cache::{SetupBinary, SetupResult, SetupStatus};
use crate::deploy::{
    ahead_of_own, deploy_error_response, deploy_hint, failed_deploy_text, is_newer_than_own,
    DeployResult, VERSION,
};
use crate::error::{labelled, RemExecError};
use crate::json::{
    fields_model, lemma_member_from, list_model, lookup, lookup_text, member_from, push_field,
    push_item, push_opt_text, typed, Json, JsonModel,
};
use crate::protocol::{is_error, ErrorCode, Response, PROTOCOL_VERSION};
use crate::ssh::{hint_for, ssh_failure};
use crate::text::{contains_text, lemma_part_occurs, same};

verus! {

// ---------------------------------------------------------------------------
// Deployments
// ---------------------------------------------------------------------------

/// The error of a deployment that failed: its code, its message and its hint.
pub open spec fn deploy_fault(host: Seq<char>, e: RemExecError) -> (
    ErrorCode,
    Seq<char>,
    Option<Seq<char>>,
) {
    let ssh = match e {
        RemExecError::Ssh(detail) => ssh_failure(detail@),
        _ => None,
    };
    match ssh {
        Some(code) => (code, failed_deploy_text(host, e->Ssh_0@), hint_for(code)),
        None => (
            ErrorCode::DeployFailed,
            failed_deploy_text(host, e.text()),
            Some(deploy_hint()),
        ),
    }
}

/// A hint, where there is one.
pub open spec fn hint_field(hint: Option<Seq<char>>) -> Seq<(Seq<char>, JsonModel)> {
    match hint {
        Some(h) => seq![("hint"@, JsonModel::Text(h))],
        None => Seq::empty(),
    }
}

/// The fields of one host in the report. A host that failed carries the same
/// code, message and hint as the error of a single deployment would.
pub open spec fn host_fields(host: Seq<char>, result: Result<DeployResult, RemExecError>) -> Seq<
    (Seq<char>, JsonModel),
> {
    match result {
        Ok(d) => seq![
            ("host"@, JsonModel::Text(d.host@)),
            ("arch"@, JsonModel::Text(d.arch@)),
            ("version"@, JsonModel::Text(d.version@)),
            (
                "status"@,
                JsonModel::Text(
                    if d.changed {
                        "deployed"@
                    } else {
                        "current"@
                    },
                ),
            ),
            ("changed"@, JsonModel::Bool(d.changed)),
        ],
        Err(e) => {
            let (code, message, hint) = deploy_fault(host, e);
            seq![
                ("host"@, JsonModel::Text(host)),
                ("status"@, JsonModel::Text("failed"@)),
                ("code"@, JsonModel::Text(code.name())),
                ("message"@, JsonModel::Text(message)),
                ("retryable"@, JsonModel::Bool(code.is_retryable())),
            ] + hint_field(hint)
        },
    }
}

proof fn lemma_report_names()
    ensures
        "host"@.len() == 4 && "host"@[0] == 'h' && "host"@[1] == 'o',
        "arch"@.len() == 4 && "arch"@[0] == 'a',
        "version"@.len() == 7 && "version"@[0] == 'v',
        "status"@.len() == 6 && "status"@[0] == 's',
        "changed"@.len() == 7 && "changed"@[0] == 'c',
        "code"@.len() == 4 && "code"@[0] == 'c',
        "message"@.len() == 7 && "message"@[0] == 'm',
        "retryable"@.len() == 9,
        "hint"@.len() == 4 && "hint"@[0] == 'h' && "hint"@[1] == 'i',
        "type"@.len() == 4 && "type"@[0] == 't',
        "local_version"@.len() == 13,
        "up_to_date"@.len() == 10,
        "path"@.len() == 4 && "path"@[0] == 'p',
        "sha256"@.len() == 6 && "sha256"@[1] == 'h',
        "status"@[1] == 't',
        "deployed"@.len() == 8,
        "current"@.len() == 7,
        "failed"@.len() == 6,
        "cached"@.len() == 6,
        "installed"@.len() == 9,
{
    reveal_strlit("host");
    reveal_strlit("arch");
    reveal_strlit("version");
    reveal_strlit("status");
    reveal_strlit("changed");
    reveal_strlit("code");
    reveal_strlit("message");
    reveal_strlit("retryable");
    reveal_strlit("hint");
    reveal_strlit("type");
    reveal_strlit("local_version");
    reveal_strlit("up_to_date");
    reveal_strlit("path");
    reveal_strlit("sha256");
    reveal_strlit("deployed");
    reveal_strlit("current");
    reveal_strlit("failed");
    reveal_strlit("cached");
    reveal_strlit("installed");
}

/// The report of a host reads back: where the host was deployed to, its name, its
/// architecture, its version, and whether anything changed; where it was not, its
/// name, and the code, the message and the hint that the failure has.
pub proof fn lemma_host_report_reads_back(host: Seq<char>, result: Result<DeployResult, RemExecError>)
    ensures
        ({
            let v = JsonModel::Object(host_fields(host, result));
            match result {
                Ok(d) => {
                    &&& lookup_text(v, "host"@) == Some(d.host@)
                    &&& lookup_text(v, "arch"@) == Some(d.arch@)
                    &&& lookup_text(v, "version"@) == Some(d.version@)
                    &&& lookup_text(v, "status"@) == Some("deployed"@) <==> d.changed
                    &&& lookup_text(v, "status"@) == Some("current"@) <==> !d.changed
                    &&& lookup(v, "changed"@) == Some(JsonModel::Bool(d.changed))
                },
                Err(e) => {
                    &&& lookup_text(v, "host"@) == Some(host)
                    &&& lookup_text(v, "status"@) == Some("failed"@)
                    &&& lookup_text(v, "code"@) == Some(deploy_fault(host, e).0.name())
                    &&& lookup_text(v, "message"@) == Some(deploy_fault(host, e).1)
                    &&& lookup_text(v, "hint"@) == deploy_fault(host, e).2
                    &&& lookup(v, "retryable"@) == Some(
                        JsonModel::Bool(deploy_fault(host, e).0.is_retryable()),
                    )
                },
            }
        }),
{
    lemma_report_names();
    let f = host_fields(host, result);
    reveal_with_fuel(member_from, 8);
    lemma_member_from(f, "host"@);
    lemma_member_from(f, "arch"@);
    lemma_member_from(f, "version"@);
    lemma_member_from(f, "status"@);
    lemma_member_from(f, "changed"@);
    lemma_member_from(f, "code"@);
    lemma_member_from(f, "message"@);
    lemma_member_from(f, "hint"@);
    lemma_member_from(f, "retryable"@);
}

/// A deployment that failed is reported for one host of many as it is for one alone.
pub proof fn lemma_deploy_faults_agree(r: Response, host: Seq<char>, e: RemExecError)
    requires
        crate::deploy::is_deploy_error(r, host, e),
    ensures
        ({
            let (code, message, hint) = deploy_fault(host, e);
            is_error(r, code, message, hint)
        }),
{
}

/// The fields of an error.
pub open spec fn error_fields(code: ErrorCode, message: Seq<char>, hint: Option<Seq<char>>) -> Seq<
    (Seq<char>, JsonModel),
> {
    seq![
        ("type"@, JsonModel::Text("error"@)),
        ("message"@, JsonModel::Text(message)),
        ("code"@, JsonModel::Text(code.name())),
        ("retryable"@, JsonModel::Bool(code.is_retryable())),
    ] + hint_field(hint)
}

/// The hosts of the report.
pub open spec fn hosts_model(
    hosts: Seq<String>,
    results: Seq<Result<DeployResult, RemExecError>>,
) -> Seq<JsonModel> {
    Seq::new(hosts.len(), |i: int| JsonModel::Object(host_fields(hosts[i]@, results[i])))
}

/// Some deployment failed.
pub open spec fn any_failed(results: Seq<Result<DeployResult, RemExecError>>) -> bool {
    exists|i: int| 0 <= i < results.len() && (#[trigger] results[i]) is Err
}

fn push_host(
    fields: &mut Vec<(String, Json)>,
    host: &str,
    result: &Result<DeployResult, RemExecError>,
)
    ensures
        fields_model(final(fields)@) == fields_model(old(fields)@) + host_fields(host@, *result),
{
    match result {
        Ok(d) => {
            push_field(fields, "host", Json::text(d.host.as_str()));
            push_field(fields, "arch", Json::text(d.arch.as_str()));
            push_field(fields, "version", Json::text(d.version.as_str()));
            let status = if d.changed {
                "deployed"
            } else {
                "current"
            };
            push_field(fields, "status", Json::text(status));
            push_field(fields, "changed", Json::Bool(d.changed));
        },
        Err(e) => {
            let response = deploy_error_response(host, e);
            assert(({
                let (code, message, hint) = deploy_fault(host@, *e);
                is_error(response, code, message, hint)
            }));
            push_field(fields, "host", Json::text(host));
            push_field(fields, "status", Json::text("failed"));
            if let Response::Error { code: Some(code), message, retryable, hint } = &response {
                push_field(fields, "code", Json::text(code.as_str()));
                push_field(fields, "message", Json::text(message.as_str()));
                push_field(fields, "retryable", Json::Bool(*retryable));
                push_opt_text(fields, "hint", hint);
            }
        },
    }
    assert(fields_model(fields@) =~= fields_model(old(fields)@) + host_fields(host@, *result));
}

/// The object for one deployment and how the call exits: a deployment that failed
/// answers with the same typed error as every other command.
pub fn deployed_one(host: &str, result: &Result<DeployResult, RemExecError>) -> (r: (Json, u8))
    ensures
        match *result {
            Ok(_) => r.0.model() == JsonModel::Object(
                seq![("type"@, JsonModel::Text("deployed"@))] + host_fields(host@, *result),
            ) && r.1 == 0,
            Err(e) => {
                let (code, message, hint) = deploy_fault(host@, e);
                r.0.model() == JsonModel::Object(error_fields(code, message, hint)) && r.1
                    == error_exit_of(Some(code))
            },
        },
{
    match result {
        Ok(_) => {
            let mut fields = typed("deployed");
            push_host(&mut fields, host, result);
            (Json::object(fields), 0)
        },
        Err(e) => {
            let response = deploy_error_response(host, e);
            let code: u8 = exit_for(&response);
            proof {
                let (c, m, h) = deploy_fault(host@, *e);
                assert(is_error(response, c, m, h));
                assert(response.fields() =~= error_fields(c, m, h));
            }
            (response.to_value(), code)
        },
    }
}

/// The object for a batch of deployments, and how the call exits: one result per
/// host, and a failure if any host failed.
pub fn deployed_many(
    hosts: &Vec<String>,
    results: &Vec<Result<DeployResult, RemExecError>>,
) -> (r: (Json, u8))
    requires
        hosts@.len() == results@.len(),
    ensures
        r.0.model() == JsonModel::Object(
            seq![
                ("type"@, JsonModel::Text("deployed"@)),
                ("hosts"@, JsonModel::List(hosts_model(hosts@, results@))),
            ],
        ),
        r.1 == if any_failed(results@) {
            1u8
        } else {
            0u8
        },
{
    let mut items: Vec<Json> = Vec::new();
    let mut failed = false;
    let mut i: usize = 0;
    let ghost all = hosts_model(hosts@, results@);
    assert(list_model(items@) =~= all.take(0));
    while i < hosts.len()
        invariant
            i <= hosts@.len(),
            hosts@.len() == results@.len(),
            all == hosts_model(hosts@, results@),
            list_model(items@) == all.take(i as int),
            failed == (exists|k: int| 0 <= k < i && (#[trigger] results@[k]) is Err),
        decreases hosts@.len() - i,
    {
        let mut fields: Vec<(String, Json)> = Vec::new();
        assert(fields_model(fields@) =~= Seq::<(Seq<char>, JsonModel)>::empty());
        push_host(&mut fields, hosts[i].as_str(), &results[i]);
        assert(fields_model(fields@) =~= host_fields(hosts@[i as int]@, results@[i as int]));
        push_item(&mut items, Json::object(fields));
        let bad = results[i].is_err();
        assert(bad == (results@[i as int] is Err));
        failed = failed || bad;
        i += 1;
        assert(list_model(items@) =~= all.take(i as int));
    }
    assert(all.take(i as int) =~= all);
    let mut fields = typed("deployed");
    push_field(&mut fields, "hosts", Json::list(items));
    assert(fields_model(fields@) =~= seq![
        ("type"@, JsonModel::Text("deployed"@)),
        ("hosts"@, JsonModel::List(all)),
    ]);
    (
        Json::object(fields),
        if failed {
            1
        } else {
            0
        },
    )
}

/// `v` is the object for a `deploy`, and `exit` is how the call exits.
pub open spec fn is_deploy_report(
    v: JsonModel,
    exit: u8,
    hosts: Seq<String>,
    results: Seq<Result<DeployResult, RemExecError>>,
) -> bool {
    &&& hosts.len() != 1 ==> v == JsonModel::Object(
        seq![
            ("type"@, JsonModel::Text("deployed"@)),
            ("hosts"@, JsonModel::List(hosts_model(hosts, results))),
        ],
    ) && exit == (if any_failed(results) {
        1u8
    } else {
        0u8
    })
    &&& hosts.len() == 1 && results[0] is Ok ==> v == JsonModel::Object(
        seq![("type"@, JsonModel::Text("deployed"@))] + host_fields(hosts[0]@, results[0]),
    ) && exit == 0
    &&& hosts.len() == 1 && results[0] is Err ==> ({
        let (code, message, hint) = deploy_fault(hosts[0]@, results[0]->Err_0);
        v == JsonModel::Object(error_fields(code, message, hint)) && exit == error_exit_of(
            Some(code),
        )
    })
}

/// A deploy exits well only where every host was deployed to. Several hosts are told
/// one by one, each in its place; a single one that failed is told as an error.
pub proof fn lemma_deploy_report_tells_all(
    v: JsonModel,
    exit: u8,
    hosts: Seq<String>,
    results: Seq<Result<DeployResult, RemExecError>>,
)
    requires
        is_deploy_report(v, exit, hosts, results),
        hosts.len() == results.len(),
    ensures
        exit == 0 <==> forall|i: int| 0 <= i < results.len() ==> (#[trigger] results[i]) is Ok,
        hosts.len() != 1 ==> (lookup(v, "hosts"@) matches Some(JsonModel::List(items))
            && items.len() == hosts.len() && forall|i: int|
            0 <= i < hosts.len() ==> (#[trigger] items[i]) == JsonModel::Object(
                host_fields(hosts[i]@, results[i]),
            )),
        hosts.len() == 1 ==> (lookup_text(v, "type"@) == Some("error"@) <==> results[0] is Err),
{
    reveal_strlit("type");
    reveal_strlit("hosts");
    reveal_strlit("error");
    reveal_strlit("deployed");
    assert("type"@.len() == 4 && "hosts"@.len() == 5 && "error"@.len() == 5 && "deployed"@.len()
        == 8);
    reveal_with_fuel(member_from, 3);
    match v {
        JsonModel::Object(f) => {
            lemma_member_from(f, "type"@);
            lemma_member_from(f, "hosts"@);
        },
        _ => {},
    }
}

/// The object for a `deploy`, and how the call exits: one host stays a flat
/// object, several become a list.
pub fn do_deploy(
    hosts: &Vec<String>,
    results: &Vec<Result<DeployResult, RemExecError>>,
) -> (r: (Json, u8))
    requires
        hosts@.len() == results@.len(),
    ensures
        is_deploy_report(r.0.model(), r.1, hosts@, results@),
{
    if hosts.len() == 1 {
        deployed_one(hosts[0].as_str(), &results[0])
    } else {
        deployed_many(hosts, results)
    }
}

// ---------------------------------------------------------------------------
// Probes
// ---------------------------------------------------------------------------

/// The rxd that answered is this rx's own.
pub open spec fn is_up_to_date(version: Seq<char>, protocol: u32) -> bool {
    protocol == PROTOCOL_VERSION && version == VERSION@
}

/// The hint for an rxd that is not: it points at the end that is behind.
pub open spec fn skew_hint(host: Seq<char>, version: Seq<char>) -> Seq<char> {
    if ahead_of_own(version) {
        host + " runs rxd "@ + version + ", ahead of rx "@ + VERSION@
            + " — upgrade rx rather than deploying onto it"@
    } else {
        "run `rx deploy "@ + host + "` to match rx "@ + VERSION@
    }
}

/// What rx adds to the answer of a probe.
pub open spec fn ping_notes(host: Seq<char>, resp: Response) -> Seq<(Seq<char>, JsonModel)> {
    match resp {
        Response::Ping { version, protocol, .. } => {
            let matched = is_up_to_date(version@, protocol);
            seq![
                ("local_version"@, JsonModel::Text(VERSION@)),
                ("up_to_date"@, JsonModel::Bool(matched)),
            ] + hint_field(
                if matched {
                    None
                } else {
                    Some(skew_hint(host, version@))
                },
            )
        },
        _ => Seq::empty(),
    }
}

/// A probe tells this rx's own version, and that the host is up to date only where its
/// rxd has that very version and speaks our protocol; otherwise there is a hint at
/// the end that is behind.
pub proof fn lemma_ping_tells_the_skew(host: Seq<char>, resp: Response)
    ensures
        resp matches Response::Ping { version, protocol, .. } ==> {
            let v = JsonModel::Object(ping_notes(host, resp));
            &&& lookup_text(v, "local_version"@) == Some(VERSION@)
            &&& lookup(v, "up_to_date"@) == Some(
                JsonModel::Bool(version@ == VERSION@ && protocol == PROTOCOL_VERSION),
            )
            &&& lookup_text(v, "hint"@) is None <==> version@ == VERSION@ && protocol
                == PROTOCOL_VERSION
        },
        resp !is Ping ==> ping_notes(host, resp).len() == 0,
{
    lemma_report_names();
    let f = ping_notes(host, resp);
    reveal_with_fuel(member_from, 4);
    lemma_member_from(f, "local_version"@);
    lemma_member_from(f, "up_to_date"@);
    lemma_member_from(f, "hint"@);
}

/// The hint names the host and its version where the host is ahead, and otherwise the
/// command that brings it up to this rx.
pub proof fn lemma_skew_hint_points_at_the_end_behind(host: Seq<char>, version: Seq<char>)
    ensures
        ahead_of_own(version) ==> contains_text(skew_hint(host, version), "upgrade rx"@)
            && contains_text(skew_hint(host, version), version),
        !ahead_of_own(version) ==> contains_text(skew_hint(host, version), "rx deploy "@ + host),
{
    if ahead_of_own(version) {
        reveal_strlit(" — upgrade rx rather than deploying onto it");
        reveal_strlit("upgrade rx");
        let a = host + " runs rxd "@;
        let b = ", ahead of rx "@ + VERSION@ + " — upgrade rx rather than deploying onto it"@;
        assert(skew_hint(host, version) =~= a + version + b);
        lemma_part_occurs(a, version, b);
        let tail = " — upgrade rx rather than deploying onto it"@;
        let front = host + " runs rxd "@ + version + ", ahead of rx "@ + VERSION@;
        assert(tail.subrange(3, 13) =~= "upgrade rx"@);
        assert(skew_hint(host, version) =~= (front + tail.take(3)) + "upgrade rx"@ + tail.skip(13));
        lemma_part_occurs(front + tail.take(3), "upgrade rx"@, tail.skip(13));
    } else {
        reveal_strlit("run `rx deploy ");
        reveal_strlit("rx deploy ");
        reveal_strlit("run `");
        assert("run `rx deploy "@ =~= "run `"@ + "rx deploy "@);
        let b = "` to match rx "@ + VERSION@;
        assert(skew_hint(host, version) =~= "run `"@ + ("rx deploy "@ + host) + b);
        lemma_part_occurs("run `"@, "rx deploy "@ + host, b);
    }
}

/// The answer of a probe, with a note on whether its rxd matches this rx. Version
/// skew is reported here rather than as a warning on every command.
pub fn do_ping(host: &str, resp: &Response) -> (r: Json)
    ensures
        r.model() == JsonModel::Object(resp.fields() + ping_notes(host@, *resp)),
{
    let mut fields = resp.to_fields();
    if let Response::Ping { version, protocol, .. } = resp {
        let matched = *protocol == PROTOCOL_VERSION && same(version.as_str(), VERSION);
        push_field(&mut fields, "local_version", Json::text(VERSION));
        push_field(&mut fields, "up_to_date", Json::Bool(matched));
        if !matched {
            let hint = if is_newer_than_own(version.as_str()) {
                let mut h = labelled(host, " runs rxd ");
                h.append(version.as_str());
                h.append(", ahead of rx ");
                h.append(VERSION);
                h.append(" — upgrade rx rather than deploying onto it");
                h
            } else {
                let mut h = labelled("run `rx deploy ", host);
                h.append("` to match rx ");
                h.append(VERSION);
                h
            };
            push_field(&mut fields, "hint", Json::text(hint.as_str()));
        }
    }
    assert(fields_model(fields@) =~= resp.fields() + ping_notes(host@, *resp));
    Json::object(fields)
}

// ---------------------------------------------------------------------------
// The cache
// ---------------------------------------------------------------------------

/// How a binary got into the cache, as it is shown.
pub open spec fn setup_name(status: SetupStatus) -> Seq<char> {
    match status {
        SetupStatus::Cached => "cached"@,
        SetupStatus::Installed => "installed"@,
    }
}

/// One binary of the cache.
pub open spec fn binary_model(b: SetupBinary) -> JsonModel {
    JsonModel::Object(
        seq![
            ("arch"@, JsonModel::Text(b.arch@)),
            ("path"@, JsonModel::Text(b.path@)),
            ("sha256"@, JsonModel::Text(b.sha256@)),
            ("status"@, JsonModel::Text(setup_name(b.status))),
        ],
    )
}

/// The report of a cached binary reads back: its architecture, its place, its checksum,
/// and whether it was downloaded.
pub proof fn lemma_binary_report_reads_back(b: SetupBinary)
    ensures
        lookup_text(binary_model(b), "arch"@) == Some(b.arch@),
        lookup_text(binary_model(b), "path"@) == Some(b.path@),
        lookup_text(binary_model(b), "sha256"@) == Some(b.sha256@),
        lookup_text(binary_model(b), "status"@) == Some("installed"@) <==> b.status
            == SetupStatus::Installed,
        lookup_text(binary_model(b), "status"@) == Some("cached"@) <==> b.status
            == SetupStatus::Cached,
{
    lemma_report_names();
    let f = binary_model(b)->Object_0;
    reveal_with_fuel(member_from, 5);
    lemma_member_from(f, "arch"@);
    lemma_member_from(f, "path"@);
    lemma_member_from(f, "sha256"@);
    lemma_member_from(f, "status"@);
}

/// The binaries of the cache.
pub open spec fn binaries_model(v: Seq<SetupBinary>) -> Seq<JsonModel> {
    Seq::new(v.len(), |i: int| binary_model(v[i]))
}

/// The fields of the report of binaries that were fetched.
pub open spec fn cache_fields(result: SetupResult) -> Seq<(Seq<char>, JsonModel)> {
    seq![
        ("type"@, JsonModel::Text("cache"@)),
        ("action"@, JsonModel::Text("fetch"@)),
        ("version"@, JsonModel::Text(result.version@)),
        ("binaries"@, JsonModel::List(binaries_model(result.binaries@))),
    ]
}

/// The report names the release, and every binary of it in its place.
pub proof fn lemma_cache_report_reads_back(result: SetupResult, i: int)
    requires
        0 <= i < result.binaries@.len(),
    ensures
        lookup_text(JsonModel::Object(cache_fields(result)), "version"@) == Some(result.version@),
        lookup(JsonModel::Object(cache_fields(result)), "binaries"@) matches Some(
            JsonModel::List(items),
        ) && items.len() == result.binaries@.len() && items[i] == binary_model(result.binaries@[i]),
{
    reveal_strlit("type");
    reveal_strlit("action");
    reveal_strlit("version");
    reveal_strlit("binaries");
    assert("type"@.len() == 4 && "action"@.len() == 6 && "version"@.len() == 7 && "binaries"@.len()
        == 8);
    let f = cache_fields(result);
    reveal_with_fuel(member_from, 5);
    lemma_member_from(f, "version"@);
    lemma_member_from(f, "binaries"@);
}

/// The object for binaries that were fetched.
pub fn cache_report(result: &SetupResult) -> (r: Json)
    ensures
        r.model() == JsonModel::Object(cache_fields(*result)),
{
    let mut items: Vec<Json> = Vec::new();
    let mut i: usize = 0;
    let ghost all = binaries_model(result.binaries@);
    assert(list_model(items@) =~= all.take(0));
    while i < result.binaries.len()
        invariant
            i <= result.binaries@.len(),
            all == binaries_model(result.binaries@),
            list_model(items@) == all.take(i as int),
        decreases result.binaries@.len() - i,
    {
        let b = &result.binaries[i];
        let status = match b.status {
            SetupStatus::Cached => "cached",
            SetupStatus::Installed => "installed",
        };
        let mut fields: Vec<(String, Json)> = Vec::new();
        push_field(&mut fields, "arch", Json::text(b.arch.as_str()));
        push_field(&mut fields, "path", Json::text(b.path.as_str()));
        push_field(&mut fields, "sha256", Json::text(b.sha256.as_str()));
        push_field(&mut fields, "status", Json::text(status));
        assert(fields_model(fields@) =~= binary_model(result.binaries@[i as int])->Object_0);
        push_item(&mut items, Json::object(fields));
        i += 1;
        assert(list_model(items@) =~= all.take(i as int));
    }
    assert(all.take(i as int) =~= all);
    let mut fields = typed("cache");
    push_field(&mut fields, "action", Json::text("fetch"));
    push_field(&mut fields, "version", Json::text(result.version.as_str()));
    push_field(&mut fields, "binaries", Json::list(items));
    assert(fields_model(fields@) =~= seq![
        ("type"@, JsonModel::Text("cache"@)),
        ("action"@, JsonModel::Text("fetch"@)),
        ("version"@, JsonModel::Text(result.version@)),
        ("binaries"@, JsonModel::List(all)),
    ]);
    Json::object(fields)
}

} // verus!
