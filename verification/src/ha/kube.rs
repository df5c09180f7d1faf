//! Kubernetes Lease objects as a source of lease records.
use vstd::prelude::*;

use crate::error::concat;
use crate::ha::policy::LeaseRecord;
use crate::ha::records;
use crate::text;

verus! {

/// The text of the error that parsing `input` as JSON gives, where it does.
pub uninterp spec fn json_error(input: Seq<char>) -> Option<Seq<char>>;

/// Whether the JSON document `input` has a value at a JSON pointer.
pub uninterp spec fn json_present(input: Seq<char>, pointer: Seq<char>) -> bool;

/// The string at a JSON pointer of the JSON document `input`.
pub uninterp spec fn json_text(input: Seq<char>, pointer: Seq<char>) -> Option<Seq<char>>;

/// The unsigned integer at a JSON pointer of the JSON document `input`.
pub uninterp spec fn json_unsigned(input: Seq<char>, pointer: Seq<char>) -> Option<u64>;

/// The Unix time in seconds that an RFC 3339 text denotes, or the text of the
/// error that parsing it gives.
pub uninterp spec fn rfc3339_secs(input: Seq<char>) -> Result<i64, Seq<char>>;

/// `serde_json::from_str` into a `serde_json::Value`: whether it fails, and the
/// text of its error, is a function of the input, named [`json_error`].
#[verifier::external_body]
fn parse_json_error(input: &str) -> (r: Option<String>)
    ensures
        text::opt_view(r) == json_error(input@),
{
    serde_json::from_str::<serde_json::Value>(input).err().map(|e| e.to_string())
}

/// `serde_json::Value::pointer` on the parsed input: whether there is a value
/// is a function of the input and the pointer, named [`json_present`].
#[verifier::external_body]
fn has_json(input: &str, pointer: &str) -> (r: bool)
    ensures
        r == json_present(input@, pointer@),
{
    serde_json::from_str::<serde_json::Value>(input).is_ok_and(|v| v.pointer(pointer).is_some())
}

/// `serde_json::Value::as_str` at a pointer of the parsed input: the string is
/// a function of the input and the pointer, named [`json_text`].
#[verifier::external_body]
fn json_str(input: &str, pointer: &str) -> (r: Option<String>)
    ensures
        text::opt_view(r) == json_text(input@, pointer@),
{
    let value = serde_json::from_str::<serde_json::Value>(input).ok()?;
    value.pointer(pointer).and_then(serde_json::Value::as_str).map(String::from)
}

/// `serde_json::Value::as_u64` at a pointer of the parsed input: the number is
/// a function of the input and the pointer, named [`json_unsigned`].
#[verifier::external_body]
fn json_u64(input: &str, pointer: &str) -> (r: Option<u64>)
    ensures
        r == json_unsigned(input@, pointer@),
{
    let value = serde_json::from_str::<serde_json::Value>(input).ok()?;
    value.pointer(pointer).and_then(serde_json::Value::as_u64)
}

/// `chrono::DateTime::parse_from_rfc3339` and the Unix timestamp of its result:
/// both are a function of the text, named [`rfc3339_secs`].
#[verifier::external_body]
fn parse_rfc3339(input: &str) -> (r: Result<i64, String>)
    ensures
        match r {
            Ok(secs) => rfc3339_secs(input@) == Ok::<i64, Seq<char>>(secs),
            Err(e) => rfc3339_secs(input@) == Err::<i64, Seq<char>>(e@),
        },
{
    match chrono::DateTime::parse_from_rfc3339(input) {
        Ok(time) => Ok(time.with_timezone(&chrono::Utc).timestamp()),
        Err(error) => Err(error.to_string()),
    }
}

/// What a Kubernetes Lease object says, as far as a lease record depends on it.
#[derive(Debug)]
pub struct LeaseFields {
    /// Whether the object has a `spec`.
    pub has_spec: bool,
    /// `spec.holderIdentity`, where it is a string.
    pub holder_identity: Option<String>,
    /// `spec.leaseDurationSeconds`, where it is an unsigned integer.
    pub lease_duration_seconds: Option<u64>,
    /// `spec.renewTime`, where it is a string: the Unix time that it denotes, or
    /// the error that parsing it gives.
    pub renew_time: Option<Result<i64, String>>,
    /// The generation annotation, where it is a string.
    pub generation: Option<String>,
}

/// The content of [`LeaseFields`].
#[verifier::ext_equal]
pub struct LeaseFieldsView {
    pub has_spec: bool,
    pub holder_identity: Option<Seq<char>>,
    pub lease_duration_seconds: Option<u64>,
    pub renew_time: Option<Result<i64, Seq<char>>>,
    pub generation: Option<Seq<char>>,
}

impl View for LeaseFields {
    type V = LeaseFieldsView;

    open spec fn view(&self) -> LeaseFieldsView {
        LeaseFieldsView {
            has_spec: self.has_spec,
            holder_identity: text::opt_view(self.holder_identity),
            lease_duration_seconds: self.lease_duration_seconds,
            renew_time: match self.renew_time {
                None => None,
                Some(Ok(secs)) => Some(Ok(secs)),
                Some(Err(e)) => Some(Err(e@)),
            },
            generation: text::opt_view(self.generation),
        }
    }
}

/// The lease that a Kubernetes Lease object describes, or why there is none.
///
/// The lease is treated as missing when the holder identity is absent or empty.
pub open spec fn fields_meaning(fields: LeaseFieldsView) -> Result<
    Option<records::LeaseView>,
    Seq<char>,
> {
    if !fields.has_spec {
        Err("lease json missing spec"@)
    } else if fields.holder_identity is None || text::trimmed(fields.holder_identity->0).len()
        == 0 {
        Ok(None)
    } else if fields.lease_duration_seconds is None {
        Err("lease json missing spec.leaseDurationSeconds"@)
    } else {
        match fields.renew_time {
            None => Err("lease json missing spec.renewTime"@),
            Some(Err(e)) => Err("invalid spec.renewTime: "@ + e),
            Some(Ok(secs)) => if secs < 0 {
                Err("spec.renewTime resolved to a negative unix timestamp"@)
            } else {
                match fields.generation {
                    None => Err(
                        "lease json missing metadata.annotations[rsqlite-rsync.dev/generation]"@,
                    ),
                    Some(raw) => match text::unsigned_number(raw, u64::MAX as nat) {
                        None => Err(
                            "invalid metadata.annotations[rsqlite-rsync.dev/generation]: "@ + raw,
                        ),
                        Some(generation) => Ok(
                            Some(
                                records::LeaseView {
                                    holder_node_id: text::trimmed(fields.holder_identity->0),
                                    generation,
                                    renewed_at_secs: secs as nat,
                                    ttl_secs: fields.lease_duration_seconds->0 as nat,
                                },
                            ),
                        ),
                    },
                }
            },
        }
    }
}

/// The fields of the Lease object in the JSON document `input`.
pub open spec fn fields_of(input: Seq<char>) -> LeaseFieldsView {
    LeaseFieldsView {
        has_spec: json_present(input, "/spec"@),
        holder_identity: json_text(input, "/spec/holderIdentity"@),
        lease_duration_seconds: json_unsigned(input, "/spec/leaseDurationSeconds"@),
        renew_time: match json_text(input, "/spec/renewTime"@) {
            None => None,
            Some(t) => Some(rfc3339_secs(t)),
        },
        generation: json_text(input, "/metadata/annotations/rsqlite-rsync.dev~1generation"@),
    }
}

/// The lease that the JSON document `input` describes, or why there is none.
pub open spec fn json_meaning(input: Seq<char>) -> Result<Option<records::LeaseView>, Seq<char>> {
    match json_error(input) {
        Some(e) => Err("invalid lease json: "@ + e),
        None => fields_meaning(fields_of(input)),
    }
}

/// Whether a result is what `meaning` says.
pub open spec fn conveys(
    r: Result<Option<LeaseRecord>, String>,
    meaning: Result<Option<records::LeaseView>, Seq<char>>,
) -> bool {
    match r {
        Ok(Some(lease)) => meaning == Ok::<Option<records::LeaseView>, Seq<char>>(Some(lease@)),
        Ok(None) => meaning == Ok::<Option<records::LeaseView>, Seq<char>>(None),
        Err(e) => meaning == Err::<Option<records::LeaseView>, Seq<char>>(e@),
    }
}

/// The lease that the fields of a Kubernetes Lease object describe.
pub fn lease_from_fields(fields: &LeaseFields) -> (r: Result<Option<LeaseRecord>, String>)
    ensures
        conveys(r, fields_meaning(fields@)),
{
    if !fields.has_spec {
        return Err("lease json missing spec".to_owned());
    }
    let holder_node_id: String = match &fields.holder_identity {
        None => {
            return Ok(None);
        },
        Some(holder) => text::trim(holder.as_str()),
    };
    if holder_node_id.as_str().is_empty() {
        return Ok(None);
    }
    let ttl_secs: u64 = match fields.lease_duration_seconds {
        None => {
            return Err("lease json missing spec.leaseDurationSeconds".to_owned());
        },
        Some(secs) => secs,
    };
    let renewed_at_secs: u64 = match &fields.renew_time {
        None => {
            return Err("lease json missing spec.renewTime".to_owned());
        },
        Some(Err(error)) => {
            return Err(concat("invalid spec.renewTime: ", error.as_str()));
        },
        Some(Ok(secs)) => {
            if *secs < 0 {
                return Err("spec.renewTime resolved to a negative unix timestamp".to_owned());
            }
            *secs as u64
        },
    };
    let generation: u64 = match &fields.generation {
        None => {
            return Err(
                "lease json missing metadata.annotations[rsqlite-rsync.dev/generation]".to_owned(),
            );
        },
        Some(raw) => match text::parse_unsigned(raw.as_str(), u64::MAX) {
            None => {
                return Err(
                    concat(
                        "invalid metadata.annotations[rsqlite-rsync.dev/generation]: ",
                        raw.as_str(),
                    ),
                );
            },
            Some(n) => n,
        },
    };
    Ok(Some(LeaseRecord { holder_node_id, generation, renewed_at_secs, ttl_secs }))
}

/// Parse a Kubernetes Lease resource JSON payload into [`LeaseRecord`].
///
/// The lease is treated as missing when holder identity is absent or empty.
/// `generation` is read from `metadata.annotations[rsqlite-rsync.dev/generation]`.
pub fn parse_kubernetes_lease_json(input: &str) -> (r: Result<Option<LeaseRecord>, String>)
    ensures
        conveys(r, json_meaning(input@)),
{
    match parse_json_error(input) {
        Some(error) => {
            return Err(concat("invalid lease json: ", error.as_str()));
        },
        None => {},
    }
    let renew_time: Option<Result<i64, String>> = match json_str(input, "/spec/renewTime") {
        None => None,
        Some(raw) => Some(parse_rfc3339(raw.as_str())),
    };
    let fields: LeaseFields = LeaseFields {
        has_spec: has_json(input, "/spec"),
        holder_identity: json_str(input, "/spec/holderIdentity"),
        lease_duration_seconds: json_u64(input, "/spec/leaseDurationSeconds"),
        renew_time,
        generation: json_str(input, "/metadata/annotations/rsqlite-rsync.dev~1generation"),
    };
    lease_from_fields(&fields)
}

/// How a run of `kubectl get lease` ended.
#[derive(Debug)]
pub enum KubectlOutput {
    /// The command could not be executed; the text of the error.
    NotExecuted(String),
    /// The command failed; what it printed to standard error.
    Failed(String),
    /// The command succeeded, but its output is not UTF-8; the text of the error.
    NotUtf8(String),
    /// The command succeeded; what it printed to standard output.
    Succeeded(String),
}

/// Lease reader that fetches Kubernetes Lease objects via `kubectl`.
#[derive(Debug, Clone)]
pub struct KubectlLeaseReader {
    kubectl_path: String,
    namespace: String,
    lease_name: String,
    kube_context: Option<String>,
    kubeconfig: Option<String>,
}

/// The content of a [`KubectlLeaseReader`].
#[verifier::ext_equal]
pub struct KubectlView {
    pub kubectl_path: Seq<char>,
    pub namespace: Seq<char>,
    pub lease_name: Seq<char>,
    pub kube_context: Option<Seq<char>>,
    pub kubeconfig: Option<Seq<char>>,
}

impl View for KubectlLeaseReader {
    type V = KubectlView;

    closed spec fn view(&self) -> KubectlView {
        KubectlView {
            kubectl_path: self.kubectl_path@,
            namespace: self.namespace@,
            lease_name: self.lease_name@,
            kube_context: text::opt_view(self.kube_context),
            kubeconfig: text::opt_view(self.kubeconfig),
        }
    }
}

/// An option with its value, where it has one.
pub open spec fn option_args(flag: Seq<char>, value: Option<Seq<char>>) -> Seq<Seq<char>> {
    match value {
        None => Seq::empty(),
        Some(v) => seq![flag, v],
    }
}

/// The command line arguments that ask `kubectl` for the lease.
pub open spec fn kubectl_args(reader: KubectlView) -> Seq<Seq<char>> {
    option_args("--context"@, reader.kube_context) + option_args(
        "--kubeconfig"@,
        reader.kubeconfig,
    ) + seq![
        "-n"@,
        reader.namespace,
        "get"@,
        "lease"@,
        reader.lease_name,
        "-o"@,
        "json"@,
    ]
}

/// The lease that a run of `kubectl` reports, or why there is none: a lease
/// that does not exist is no error.
pub open spec fn output_meaning(reader: KubectlView, output: KubectlOutput) -> Result<
    Option<records::LeaseView>,
    Seq<char>,
> {
    match output {
        KubectlOutput::NotExecuted(e) => Err("failed executing kubectl: "@ + e@),
        KubectlOutput::Failed(stderr) => {
            let t = text::trimmed(stderr@);
            if text::has_text(t, "(NotFound)"@) || text::has_text(t, " not found"@) {
                Ok(None)
            } else {
                Err(
                    "kubectl get lease failed (namespace="@ + reader.namespace + ", lease="@
                        + reader.lease_name + "): "@ + t,
                )
            }
        },
        KubectlOutput::NotUtf8(e) => Err("kubectl output was not utf-8: "@ + e@),
        KubectlOutput::Succeeded(stdout) => json_meaning(stdout@),
    }
}

impl KubectlLeaseReader {
    pub fn new(kubectl_path: &str, namespace: &str, lease_name: &str) -> (r: KubectlLeaseReader)
        ensures
            r@ == (KubectlView {
                kubectl_path: kubectl_path@,
                namespace: namespace@,
                lease_name: lease_name@,
                kube_context: None,
                kubeconfig: None,
            }),
    {
        KubectlLeaseReader {
            kubectl_path: kubectl_path.to_owned(),
            namespace: namespace.to_owned(),
            lease_name: lease_name.to_owned(),
            kube_context: None,
            kubeconfig: None,
        }
    }

    pub fn set_kube_context(&mut self, kube_context: Option<String>)
        ensures
            final(self)@ == (KubectlView {
                kube_context: text::opt_view(kube_context),
                ..old(self)@
            }),
    {
        self.kube_context = kube_context;
    }

    pub fn set_kubeconfig(&mut self, kubeconfig: Option<String>)
        ensures
            final(self)@ == (KubectlView { kubeconfig: text::opt_view(kubeconfig), ..old(self)@ }),
    {
        self.kubeconfig = kubeconfig;
    }

    pub fn kubectl_path(&self) -> (r: &str)
        ensures
            r@ == self@.kubectl_path,
    {
        self.kubectl_path.as_str()
    }

    pub fn namespace(&self) -> (r: &str)
        ensures
            r@ == self@.namespace,
    {
        self.namespace.as_str()
    }

    pub fn lease_name(&self) -> (r: &str)
        ensures
            r@ == self@.lease_name,
    {
        self.lease_name.as_str()
    }

    /// The command line arguments that ask `kubectl` for the lease.
    pub fn command_args(&self) -> (r: Vec<String>)
        ensures
            text::views(r@) == kubectl_args(self@),
    {
        let mut args: Vec<String> = Vec::new();
        match &self.kube_context {
            None => {},
            Some(context) => {
                args.push("--context".to_owned());
                args.push(context.clone());
            },
        }
        assert(text::views(args@) == option_args("--context"@, self@.kube_context));
        let ghost head = text::views(args@);
        match &self.kubeconfig {
            None => {},
            Some(kubeconfig) => {
                args.push("--kubeconfig".to_owned());
                args.push(kubeconfig.clone());
            },
        }
        assert(text::views(args@) == head + option_args("--kubeconfig"@, self@.kubeconfig));
        let ghost options = text::views(args@);
        args.push("-n".to_owned());
        args.push(self.namespace.clone());
        args.push("get".to_owned());
        args.push("lease".to_owned());
        args.push(self.lease_name.clone());
        args.push("-o".to_owned());
        args.push("json".to_owned());
        assert(text::views(args@) == options + seq![
            "-n"@,
            self@.namespace,
            "get"@,
            "lease"@,
            self@.lease_name,
            "-o"@,
            "json"@,
        ]);
        args
    }

    /// The lease that a run of `kubectl` with these arguments reports.
    pub fn lease_from_output(&self, output: &KubectlOutput) -> (r: Result<
        Option<LeaseRecord>,
        String,
    >)
        ensures
            conveys(r, output_meaning(self@, *output)),
    {
        match output {
            KubectlOutput::NotExecuted(error) => Err(
                concat("failed executing kubectl: ", error.as_str()),
            ),
            KubectlOutput::Failed(stderr) => {
                let trimmed: String = text::trim(stderr.as_str());
                if text::contains_text(trimmed.as_str(), "(NotFound)") || text::contains_text(
                    trimmed.as_str(),
                    " not found",
                ) {
                    return Ok(None);
                }
                let mut m: String = "kubectl get lease failed (namespace=".to_owned();
                m.append(self.namespace.as_str());
                m.append(", lease=");
                m.append(self.lease_name.as_str());
                m.append("): ");
                m.append(trimmed.as_str());
                Err(m)
            },
            KubectlOutput::NotUtf8(error) => Err(
                concat("kubectl output was not utf-8: ", error.as_str()),
            ),
            KubectlOutput::Succeeded(stdout) => parse_kubernetes_lease_json(stdout.as_str()),
        }
    }
}

/// A lease comes only from a Lease object that names a holder, and it names
/// that holder without surrounding white space.
pub proof fn law_kubernetes_lease_has_holder(fields: LeaseFieldsView)
    ensures
        fields_meaning(fields) matches Ok(Some(lease)) ==> fields.holder_identity is Some
            && lease.holder_node_id == text::trimmed(fields.holder_identity->0)
            && lease.holder_node_id.len() > 0,
{
}

/// A Lease object whose holder is absent or blank is no lease and no error,
/// whatever else it lacks.
pub proof fn law_unheld_kubernetes_lease_is_missing(fields: LeaseFieldsView)
    requires
        fields.has_spec,
        fields.holder_identity is None || text::trimmed(fields.holder_identity->0).len() == 0,
    ensures
        fields_meaning(fields) == Ok::<Option<records::LeaseView>, Seq<char>>(None),
{
}

/// A Lease object with all that is needed is the lease that it says: its holder
/// without white space around it, the annotated generation, and its times.
pub proof fn law_complete_kubernetes_lease_is_read(
    fields: LeaseFieldsView,
    pre: Seq<char>,
    holder: Seq<char>,
    post: Seq<char>,
    generation: u64,
    renewed: i64,
    duration: u64,
)
    requires
        text::all_spaces(pre),
        text::all_spaces(post),
        holder.len() > 0 && !text::is_space(holder[0]) && !text::is_space(holder.last()),
        renewed >= 0,
        fields.has_spec,
        fields.holder_identity == Some(pre + holder + post),
        fields.lease_duration_seconds == Some(duration),
        fields.renew_time == Some(Ok::<i64, Seq<char>>(renewed)),
        fields.generation == Some(text::decimal(generation as nat)),
    ensures
        fields_meaning(fields) == Ok::<Option<records::LeaseView>, Seq<char>>(
            Some(
                records::LeaseView {
                    holder_node_id: holder,
                    generation: generation as nat,
                    renewed_at_secs: renewed as nat,
                    ttl_secs: duration as nat,
                },
            ),
        ),
{
    text::law_trimming_takes_the_surrounding_space(pre, holder, post);
    text::law_unsigned_number_is_read(generation as nat, 0, u64::MAX as nat);
}

/// A held Lease object that lacks something, or has a wrong time or generation, is an
/// error; so is an object without a `spec`.
pub proof fn law_incomplete_kubernetes_lease_is_an_error(fields: LeaseFieldsView, i: int)
    requires
        !fields.has_spec || ({
            &&& fields.holder_identity matches Some(h)
            &&& 0 <= i < h.len()
            &&& !text::is_space(h[i])
        }),
        ({
            ||| !fields.has_spec
            ||| fields.lease_duration_seconds is None
            ||| fields.renew_time is None
            ||| (fields.renew_time matches Some(Err(_)))
            ||| (fields.renew_time matches Some(Ok(secs)) && secs < 0)
            ||| fields.generation is None
            ||| text::unsigned_number(fields.generation->0, u64::MAX as nat) is None
        }),
    ensures
        fields_meaning(fields) is Err,
{
    if fields.has_spec {
        let h = fields.holder_identity->0;
        if text::trimmed(h).len() == 0 {
            text::lemma_blank_text(h);
        }
    }
}

/// The lease of a JSON document is that of the values at their places in it.
pub proof fn law_kubernetes_json_is_read(
    input: Seq<char>,
    holder: Seq<char>,
    generation: u64,
    time: Seq<char>,
    renewed: i64,
    duration: u64,
)
    requires
        json_error(input) is None,
        json_present(input, "/spec"@),
        json_text(input, "/spec/holderIdentity"@) == Some(holder),
        json_unsigned(input, "/spec/leaseDurationSeconds"@) == Some(duration),
        json_text(input, "/spec/renewTime"@) == Some(time),
        rfc3339_secs(time) == Ok::<i64, Seq<char>>(renewed),
        json_text(input, "/metadata/annotations/rsqlite-rsync.dev~1generation"@) == Some(
            text::decimal(generation as nat),
        ),
        holder.len() > 0 && !text::is_space(holder[0]) && !text::is_space(holder.last()),
        renewed >= 0,
    ensures
        json_meaning(input) == Ok::<Option<records::LeaseView>, Seq<char>>(
            Some(
                records::LeaseView {
                    holder_node_id: holder,
                    generation: generation as nat,
                    renewed_at_secs: renewed as nat,
                    ttl_secs: duration as nat,
                },
            ),
        ),
{
    let none = Seq::<char>::empty();
    assert(none + holder + none =~= holder);
    law_complete_kubernetes_lease_is_read(
        fields_of(input),
        none,
        holder,
        none,
        generation,
        renewed,
        duration,
    );
}

/// A document that is no JSON is an error that says so.
pub proof fn law_broken_json_is_an_error(input: Seq<char>, e: Seq<char>)
    requires
        json_error(input) == Some(e),
    ensures
        json_meaning(input) == Err::<Option<records::LeaseView>, Seq<char>>(
            "invalid lease json: "@ + e,
        ),
{
}

/// `kubectl` is asked for the lease by its name in its namespace, as JSON, with the
/// context and the configuration where they are given, and with nothing else.
pub proof fn law_kubectl_is_asked_for_the_lease(reader: KubectlView)
    ensures
        ({
            let args = kubectl_args(reader);
            let n = args.len() as int;
            let c = if reader.kube_context is Some { 2int } else { 0int };
            let k = if reader.kubeconfig is Some { 2int } else { 0int };
            &&& n == c + k + 7
            &&& args[n - 7] == "-n"@ && args[n - 6] == reader.namespace
            &&& args[n - 5] == "get"@ && args[n - 4] == "lease"@
            &&& args[n - 3] == reader.lease_name
            &&& args[n - 2] == "-o"@ && args[n - 1] == "json"@
            &&& reader.kube_context is Some ==> args[0] == "--context"@ && args[1]
                == reader.kube_context->0
            &&& reader.kubeconfig is Some ==> args[c] == "--kubeconfig"@ && args[c + 1]
                == reader.kubeconfig->0
        }),
{
}

/// A lease that `kubectl` did not find is no lease, wherever its output says so; any
/// other failure is an error.
pub proof fn law_missing_lease_is_no_error(
    reader: KubectlView,
    stderr: String,
    before: Seq<char>,
    after: Seq<char>,
)
    requires
        text::trimmed(stderr@) == before + "(NotFound)"@ + after || text::trimmed(stderr@) == before
            + " not found"@ + after,
    ensures
        output_meaning(reader, KubectlOutput::Failed(stderr)) == Ok::<
            Option<records::LeaseView>,
            Seq<char>,
        >(None),
{
    text::law_part_of_a_text_is_found(before, "(NotFound)"@, after);
    text::law_part_of_a_text_is_found(before, " not found"@, after);
}

/// What `kubectl` printed counts exactly if it succeeded; else there is an error,
/// unless the lease was not found.
pub proof fn law_failed_kubectl_is_an_error(reader: KubectlView, output: KubectlOutput)
    ensures
        output matches KubectlOutput::Succeeded(stdout) ==> output_meaning(reader, output)
            == json_meaning(stdout@),
        output is NotExecuted || output is NotUtf8 ==> output_meaning(reader, output) is Err,
        output matches KubectlOutput::Failed(stderr) ==> (!text::has_text(
            text::trimmed(stderr@),
            "(NotFound)"@,
        ) && !text::has_text(text::trimmed(stderr@), " not found"@) ==> output_meaning(
            reader,
            output,
        ) is Err),
{
}

/// A result conveys a meaning exactly if it is that meaning.
pub proof fn law_results_convey_one_meaning(
    lease: LeaseRecord,
    e: String,
    meaning: Result<Option<records::LeaseView>, Seq<char>>,
)
    ensures
        conveys(Ok(None), meaning) <==> meaning == Ok::<Option<records::LeaseView>, Seq<char>>(
            None,
        ),
        conveys(Ok(Some(lease)), meaning) <==> (meaning matches Ok(Some(l)) && l.holder_node_id
            == lease.holder_node_id@ && l.generation == lease.generation && l.renewed_at_secs
            == lease.renewed_at_secs && l.ttl_secs == lease.ttl_secs),
        conveys(Err(e), meaning) <==> meaning == Err::<Option<records::LeaseView>, Seq<char>>(e@),
{
    if meaning is Ok && meaning->Ok_0 is Some {
        let l = meaning->Ok_0->0;
        if l.holder_node_id == lease.holder_node_id@ && l.generation == lease.generation
            && l.renewed_at_secs == lease.renewed_at_secs && l.ttl_secs == lease.ttl_secs {
            assert(l =~= lease@);
        }
    }
}

/// What a Lease object lacks is told, each thing by its name.
pub proof fn law_missing_lease_fields_are_named(fields: LeaseFieldsView)
    requires
        fields.has_spec,
        fields.holder_identity is Some,
        !text::all_spaces(fields.holder_identity->0),
    ensures
        fields.lease_duration_seconds is None ==> fields_meaning(fields) == Err::<
            Option<records::LeaseView>,
            Seq<char>,
        >("lease json missing spec.leaseDurationSeconds"@),
        fields.lease_duration_seconds is Some && fields.renew_time is None ==> fields_meaning(
            fields,
        ) == Err::<Option<records::LeaseView>, Seq<char>>("lease json missing spec.renewTime"@),
        fields.lease_duration_seconds is Some ==> (fields.renew_time matches Some(Err(e))
            ==> fields_meaning(fields) == Err::<Option<records::LeaseView>, Seq<char>>(
            "invalid spec.renewTime: "@ + e,
        )),
        fields.lease_duration_seconds is Some ==> (fields.renew_time matches Some(Ok(secs)) ==> (
        secs < 0 ==> fields_meaning(fields) == Err::<Option<records::LeaseView>, Seq<char>>(
            "spec.renewTime resolved to a negative unix timestamp"@,
        )) && (secs >= 0 && fields.generation is None ==> fields_meaning(fields) == Err::<
            Option<records::LeaseView>,
            Seq<char>,
        >("lease json missing metadata.annotations[rsqlite-rsync.dev/generation]"@))),
{
    text::lemma_blank_text(fields.holder_identity->0);
}

} // verus!
