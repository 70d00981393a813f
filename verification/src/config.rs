//! The policy catalog: policies, their LLM entries, lookups, the sanitized
//! view and validation.
use crate::text::trimmed_eq;
use crate::text::trim;
use vstd::prelude::*;
use vstd::string::StringExecFns;

verus! {

/// One upstream provider target.
#[derive(Debug)]
pub struct Llm {
    pub name: String,
    pub api_base: String,
    pub api_key: String,
    pub model: String,
}

/// The mathematical value of a [`Llm`].
pub struct LlmView {
    pub name: Seq<char>,
    pub api_base: Seq<char>,
    pub api_key: Seq<char>,
    pub model: Seq<char>,
}

impl View for Llm {
    type V = LlmView;

    open spec fn view(&self) -> LlmView {
        LlmView {
            name: self.name@,
            api_base: self.api_base@,
            api_key: self.api_key@,
            model: self.model@,
        }
    }
}

impl Clone for Llm {
    fn clone(&self) -> (r: Self)
        ensures
            r@ == self@,
    {
        Llm {
            name: self.name.clone(),
            api_base: self.api_base.clone(),
            api_key: self.api_key.clone(),
            model: self.model.clone(),
        }
    }
}

/// A named bundle of a classifier URL and candidate LLMs.
#[derive(Debug)]
pub struct Policy {
    pub name: String,
    pub url: String,
    pub llms: Vec<Llm>,
}

/// The mathematical value of a [`Policy`].
#[verifier::ext_equal]
pub struct PolicyView {
    pub name: Seq<char>,
    pub url: Seq<char>,
    pub llms: Seq<LlmView>,
}

impl View for Policy {
    type V = PolicyView;

    open spec fn view(&self) -> PolicyView {
        PolicyView { name: self.name@, url: self.url@, llms: self.llms@.map_values(|l: Llm| l@) }
    }
}

/// The catalog of policies, in order.
#[derive(Debug)]
pub struct RouterConfig {
    pub policies: Vec<Policy>,
}

/// The mathematical value of a [`RouterConfig`].
#[verifier::ext_equal]
pub struct RouterConfigView {
    pub policies: Seq<PolicyView>,
}

impl View for RouterConfig {
    type V = RouterConfigView;

    open spec fn view(&self) -> RouterConfigView {
        RouterConfigView { policies: self.policies@.map_values(|p: Policy| p@) }
    }
}

/// The least index `i >= from` at which `names[i]`, trimmed, is `name`, trimmed.
pub open spec fn first_trimmed_match(names: Seq<Seq<char>>, name: Seq<char>, from: int) -> Option<
    int,
>
    decreases names.len() - from,
{
    if from < 0 || from >= names.len() {
        None
    } else if trim(names[from]) == trim(name) {
        Some(from)
    } else {
        first_trimmed_match(names, name, from + 1)
    }
}

/// The least index `i >= from` at which `names[i]` is `name`.
pub open spec fn first_exact_match(names: Seq<Seq<char>>, name: Seq<char>, from: int) -> Option<int>
    decreases names.len() - from,
{
    if from < 0 || from >= names.len() {
        None
    } else if names[from] == name {
        Some(from)
    } else {
        first_exact_match(names, name, from + 1)
    }
}

/// What [`first_trimmed_match`] finds is a match, and nothing before it is.
pub proof fn lemma_first_trimmed_match(names: Seq<Seq<char>>, name: Seq<char>, from: int)
    requires
        0 <= from,
    ensures
        match first_trimmed_match(names, name, from) {
            Some(i) => from <= i < names.len() && trim(names[i]) == trim(name) && forall|j: int|
                from <= j < i ==> trim(#[trigger] names[j]) != trim(name),
            None => forall|j: int| from <= j < names.len() ==> trim(#[trigger] names[j]) != trim(name),
        },
    decreases names.len() - from,
{
    if from < names.len() && trim(names[from]) != trim(name) {
        lemma_first_trimmed_match(names, name, from + 1);
    }
}

/// What [`first_exact_match`] finds is a match, and nothing before it is.
pub proof fn lemma_first_exact_match(names: Seq<Seq<char>>, name: Seq<char>, from: int)
    requires
        0 <= from,
    ensures
        match first_exact_match(names, name, from) {
            Some(i) => from <= i < names.len() && names[i] == name && forall|j: int|
                from <= j < i ==> #[trigger] names[j] != name,
            None => forall|j: int| from <= j < names.len() ==> #[trigger] names[j] != name,
        },
    decreases names.len() - from,
{
    if from < names.len() && names[from] != name {
        lemma_first_exact_match(names, name, from + 1);
    }
}

impl LlmView {
    /// The entry with its credential replaced.
    pub open spec fn redacted(self) -> LlmView {
        LlmView { api_key: "[REDACTED]"@, ..self }
    }
}

impl PolicyView {
    /// The names of the LLMs, in order.
    pub open spec fn llm_names(self) -> Seq<Seq<char>> {
        self.llms.map_values(|l: LlmView| l.name)
    }

    /// The first LLM whose name, trimmed, is `name`, trimmed.
    pub open spec fn llm_by_name(self, name: Seq<char>) -> Option<LlmView> {
        match first_trimmed_match(self.llm_names(), name, 0) {
            Some(i) => Some(self.llms[i]),
            None => None,
        }
    }

    /// The index of the first LLM whose name is exactly `name`.
    pub open spec fn llm_index_by_name(self, name: Seq<char>) -> Option<int> {
        first_exact_match(self.llm_names(), name, 0)
    }

    /// The LLM at `index`, if the policy has that many.
    pub open spec fn llm_by_index(self, index: int) -> Option<LlmView> {
        if 0 <= index < self.llms.len() {
            Some(self.llms[index])
        } else {
            None
        }
    }

    /// The policy with every credential replaced by `[REDACTED]`.
    pub open spec fn sanitized(self) -> PolicyView {
        PolicyView { llms: self.llms.map_values(|l: LlmView| l.redacted()), ..self }
    }
}

impl RouterConfigView {
    /// The names of the policies, in order.
    pub open spec fn policy_names(self) -> Seq<Seq<char>> {
        self.policies.map_values(|p: PolicyView| p.name)
    }

    /// The first policy whose name, trimmed, is `name`, trimmed.
    pub open spec fn policy_by_name(self, name: Seq<char>) -> Option<PolicyView> {
        match first_trimmed_match(self.policy_names(), name, 0) {
            Some(i) => Some(self.policies[i]),
            None => None,
        }
    }

    /// The policy at `index`, if the catalog has that many.
    pub open spec fn policy_by_index(self, index: int) -> Option<PolicyView> {
        if 0 <= index < self.policies.len() {
            Some(self.policies[index])
        } else {
            None
        }
    }

    /// The catalog with every credential replaced by `[REDACTED]`.
    pub open spec fn sanitized(self) -> RouterConfigView {
        RouterConfigView { policies: self.policies.map_values(|p: PolicyView| p.sanitized()) }
    }
}

/// In a sanitized catalog every credential reads `[REDACTED]`, and nothing
/// else differs from the catalog it was made from.
pub proof fn lemma_sanitized_redacts_every_key(config: RouterConfigView)
    ensures
        config.sanitized().policies.len() == config.policies.len(),
        forall|i: int|
            #![trigger config.sanitized().policies[i]]
            0 <= i < config.policies.len() ==> {
                let p = config.policies[i];
                let q = config.sanitized().policies[i];
                &&& q.name == p.name
                &&& q.url == p.url
                &&& q.llms.len() == p.llms.len()
                &&& forall|j: int|
                    #![trigger q.llms[j]]
                    0 <= j < p.llms.len() ==> {
                        &&& q.llms[j].api_key == "[REDACTED]"@
                        &&& q.llms[j].name == p.llms[j].name
                        &&& q.llms[j].api_base == p.llms[j].api_base
                        &&& q.llms[j].model == p.llms[j].model
                    }
            },
{
}

/// Sanitizing a sanitized catalog changes nothing.
pub proof fn lemma_sanitized_idempotent(config: RouterConfigView)
    ensures
        config.sanitized().sanitized() == config.sanitized(),
{
    let a = config.sanitized();
    let b = a.sanitized();
    assert forall|i: int| 0 <= i < a.policies.len() implies b.policies[i] == a.policies[i] by {
        assert(b.policies[i].llms =~= a.policies[i].llms);
    }
    assert(b.policies =~= a.policies);
}

impl Clone for Policy {
    fn clone(&self) -> (r: Self)
        ensures
            r@ == self@,
    {
        let mut llms: Vec<Llm> = Vec::new();
        let mut i: usize = 0;
        while i < self.llms.len()
            invariant
                i <= self.llms.len(),
                llms@.len() == i,
                forall|k: int| 0 <= k < i ==> llms@[k]@ == self.llms@[k]@,
            decreases self.llms.len() - i,
        {
            llms.push(self.llms[i].clone());
            i = i + 1;
        }
        let r = Policy { name: self.name.clone(), url: self.url.clone(), llms };
        assert(r@.llms =~= self@.llms);
        r
    }
}

impl Clone for RouterConfig {
    fn clone(&self) -> (r: Self)
        ensures
            r@ == self@,
    {
        let mut policies: Vec<Policy> = Vec::new();
        let mut i: usize = 0;
        while i < self.policies.len()
            invariant
                i <= self.policies.len(),
                policies@.len() == i,
                forall|k: int| 0 <= k < i ==> policies@[k]@ == self.policies@[k]@,
            decreases self.policies.len() - i,
        {
            policies.push(self.policies[i].clone());
            i = i + 1;
        }
        let r = RouterConfig { policies };
        assert(r@.policies =~= self@.policies);
        r
    }
}

impl Policy {
    /// The first LLM whose name equals `name` once both are trimmed.
    pub fn get_llm_by_name(&self, name: &str) -> (r: Option<Llm>)
        ensures
            r is Some == self@.llm_by_name(name@) is Some,
            r is Some ==> r->0@ == self@.llm_by_name(name@)->0,
    {
        let mut i: usize = 0;
        while i < self.llms.len()
            invariant
                i <= self.llms.len(),
                first_trimmed_match(self@.llm_names(), name@, 0) == first_trimmed_match(
                    self@.llm_names(),
                    name@,
                    i as int,
                ),
            decreases self.llms.len() - i,
        {
            if trimmed_eq(self.llms[i].name.as_str(), name) {
                return Some(self.llms[i].clone());
            }
            i = i + 1;
        }
        None
    }

    /// The index of the first LLM whose name is exactly `name`.
    pub fn llm_index_by_name(&self, name: &str) -> (r: Option<usize>)
        ensures
            r is Some == self@.llm_index_by_name(name@) is Some,
            r is Some ==> r->0 as int == self@.llm_index_by_name(name@)->0,
            r is Some ==> r->0 < self.llms.len(),
    {
        let mut i: usize = 0;
        while i < self.llms.len()
            invariant
                i <= self.llms.len(),
                first_exact_match(self@.llm_names(), name@, 0) == first_exact_match(
                    self@.llm_names(),
                    name@,
                    i as int,
                ),
            decreases self.llms.len() - i,
        {
            if crate::text::str_eq(self.llms[i].name.as_str(), name) {
                return Some(i);
            }
            i = i + 1;
        }
        None
    }

    /// The LLM at `index`, if the policy has that many.
    pub fn get_llm_by_index(&self, index: usize) -> (r: Option<Llm>)
        ensures
            r is Some == self@.llm_by_index(index as int) is Some,
            r is Some ==> r->0@ == self@.llm_by_index(index as int)->0,
    {
        if index < self.llms.len() {
            Some(self.llms[index].clone())
        } else {
            None
        }
    }

    /// The name of the LLM at `index`, if the policy has that many.
    pub fn get_llm_name_by_index(&self, index: usize) -> (r: Option<String>)
        ensures
            r is Some == (index < self@.llms.len()),
            r is Some ==> r->0@ == self@.llms[index as int].name,
    {
        if index < self.llms.len() {
            Some(self.llms[index].name.clone())
        } else {
            None
        }
    }

    /// A copy in which every credential reads `[REDACTED]`.
    pub fn sanitized(&self) -> (r: Policy)
        ensures
            r@ == self@.sanitized(),
    {
        let mut llms: Vec<Llm> = Vec::new();
        let mut i: usize = 0;
        while i < self.llms.len()
            invariant
                i <= self.llms.len(),
                llms@.len() == i,
                forall|k: int| 0 <= k < i ==> llms@[k]@ == self.llms@[k]@.redacted(),
            decreases self.llms.len() - i,
        {
            let l = &self.llms[i];
            llms.push(
                Llm {
                    name: l.name.clone(),
                    api_base: l.api_base.clone(),
                    api_key: "[REDACTED]".to_owned(),
                    model: l.model.clone(),
                },
            );
            i = i + 1;
        }
        let r = Policy { name: self.name.clone(), url: self.url.clone(), llms };
        assert(r@.llms =~= self@.sanitized().llms);
        r
    }
}

impl RouterConfig {
    /// The first policy whose name equals `name` once both are trimmed.
    pub fn get_policy_by_name(&self, name: &str) -> (r: Option<Policy>)
        ensures
            r is Some == self@.policy_by_name(name@) is Some,
            r is Some ==> r->0@ == self@.policy_by_name(name@)->0,
    {
        let mut i: usize = 0;
        while i < self.policies.len()
            invariant
                i <= self.policies.len(),
                first_trimmed_match(self@.policy_names(), name@, 0) == first_trimmed_match(
                    self@.policy_names(),
                    name@,
                    i as int,
                ),
            decreases self.policies.len() - i,
        {
            if trimmed_eq(self.policies[i].name.as_str(), name) {
                return Some(self.policies[i].clone());
            }
            i = i + 1;
        }
        None
    }

    /// The policy at `index`, if the catalog has that many.
    pub fn get_policy_by_index(&self, index: usize) -> (r: Option<Policy>)
        ensures
            r is Some == self@.policy_by_index(index as int) is Some,
            r is Some ==> r->0@ == self@.policy_by_index(index as int)->0,
    {
        if index < self.policies.len() {
            Some(self.policies[index].clone())
        } else {
            None
        }
    }

    /// A deep copy in which every credential reads `[REDACTED]`.
    pub fn sanitized(&self) -> (r: RouterConfig)
        ensures
            r@ == self@.sanitized(),
    {
        let mut policies: Vec<Policy> = Vec::new();
        let mut i: usize = 0;
        while i < self.policies.len()
            invariant
                i <= self.policies.len(),
                policies@.len() == i,
                forall|k: int| 0 <= k < i ==> policies@[k]@ == self.policies@[k]@.sanitized(),
            decreases self.policies.len() - i,
        {
            policies.push(self.policies[i].sanitized());
            i = i + 1;
        }
        let r = RouterConfig { policies };
        assert(r@.policies =~= self@.sanitized().policies);
        r
    }
}

/// Why a catalog cannot be used.
#[derive(Debug)]
pub enum ConfigError {
    /// A policy lacks a required field.
    MissingPolicyField { policy: String, field: String },
    /// An LLM entry lacks a required field.
    MissingLlmField { llm: String, field: String },
    /// The catalog could not be read.
    Io { message: String },
    /// The catalog is not the YAML that is expected.
    Yaml { message: String },
}

/// The mathematical value of a [`ConfigError`].
pub enum ConfigErrorView {
    MissingPolicyField { policy: Seq<char>, field: Seq<char> },
    MissingLlmField { llm: Seq<char>, field: Seq<char> },
    Io { message: Seq<char> },
    Yaml { message: Seq<char> },
}

impl View for ConfigError {
    type V = ConfigErrorView;

    open spec fn view(&self) -> ConfigErrorView {
        match self {
            ConfigError::MissingPolicyField { policy, field } => ConfigErrorView::MissingPolicyField {
                policy: policy@,
                field: field@,
            },
            ConfigError::MissingLlmField { llm, field } => ConfigErrorView::MissingLlmField {
                llm: llm@,
                field: field@,
            },
            ConfigError::Io { message } => ConfigErrorView::Io { message: message@ },
            ConfigError::Yaml { message } => ConfigErrorView::Yaml { message: message@ },
        }
    }
}

impl ConfigErrorView {
    /// The text that describes the error.
    pub open spec fn message(self) -> Seq<char> {
        match self {
            ConfigErrorView::MissingPolicyField { policy, field } => "Missing field '"@ + field
                + "' in policy '"@ + policy + "'"@,
            ConfigErrorView::MissingLlmField { llm, field } => "Missing field '"@ + field
                + "' in LLM '"@ + llm + "'"@,
            ConfigErrorView::Io { message } => message,
            ConfigErrorView::Yaml { message } => message,
        }
    }
}

impl ConfigError {
    /// The text that describes the error.
    pub fn message(&self) -> (r: String)
        ensures
            r@ == self@.message(),
    {
        match self {
            ConfigError::MissingPolicyField { policy, field } => {
                let mut out = String::from_str("Missing field '");
                out.append(field.as_str());
                out.append("' in policy '");
                out.append(policy.as_str());
                out.append("'");
                out
            },
            ConfigError::MissingLlmField { llm, field } => {
                let mut out = String::from_str("Missing field '");
                out.append(field.as_str());
                out.append("' in LLM '");
                out.append(llm.as_str());
                out.append("'");
                out
            },
            ConfigError::Io { message } => message.clone(),
            ConfigError::Yaml { message } => message.clone(),
        }
    }
}

impl LlmView {
    /// The first required field that the entry leaves empty, as an error.
    pub open spec fn violation(self) -> Option<ConfigErrorView> {
        if self.api_base.len() == 0 {
            Some(ConfigErrorView::MissingLlmField { llm: self.name, field: "api_base"@ })
        } else if self.model.len() == 0 {
            Some(ConfigErrorView::MissingLlmField { llm: self.name, field: "model"@ })
        } else if self.api_key.len() == 0 {
            Some(ConfigErrorView::MissingLlmField { llm: self.name, field: "api_key"@ })
        } else {
            None
        }
    }
}

/// The violation of the first entry of `llms[from..]` that has one.
pub open spec fn first_llm_violation(llms: Seq<LlmView>, from: int) -> Option<ConfigErrorView>
    decreases llms.len() - from,
{
    if from < 0 || from >= llms.len() {
        None
    } else if llms[from].violation() is Some {
        llms[from].violation()
    } else {
        first_llm_violation(llms, from + 1)
    }
}

impl PolicyView {
    /// An empty name comes first, then the policy's entries in order.
    pub open spec fn violation(self) -> Option<ConfigErrorView> {
        if self.name.len() == 0 {
            Some(ConfigErrorView::MissingPolicyField { policy: self.name, field: "name"@ })
        } else {
            first_llm_violation(self.llms, 0)
        }
    }

    /// The name and every entry's `api_base`, `model` and `api_key` are non-empty.
    pub open spec fn is_valid(self) -> bool {
        &&& self.name.len() > 0
        &&& forall|j: int|
            0 <= j < self.llms.len() ==> {
                &&& (#[trigger] self.llms[j]).api_base.len() > 0
                &&& self.llms[j].model.len() > 0
                &&& self.llms[j].api_key.len() > 0
            }
    }
}

/// The violation of the first policy of `policies[from..]` that has one.
pub open spec fn first_policy_violation(policies: Seq<PolicyView>, from: int) -> Option<
    ConfigErrorView,
>
    decreases policies.len() - from,
{
    if from < 0 || from >= policies.len() {
        None
    } else if policies[from].violation() is Some {
        policies[from].violation()
    } else {
        first_policy_violation(policies, from + 1)
    }
}

impl RouterConfigView {
    /// What is wrong with the catalog, if anything: the first violation in
    /// reading order.
    pub open spec fn violation(self) -> Option<ConfigErrorView> {
        first_policy_violation(self.policies, 0)
    }

    /// Every policy is valid.
    pub open spec fn is_valid(self) -> bool {
        forall|i: int| 0 <= i < self.policies.len() ==> (#[trigger] self.policies[i]).is_valid()
    }
}

proof fn lemma_llm_violations(llms: Seq<LlmView>, from: int)
    requires
        0 <= from,
    ensures
        first_llm_violation(llms, from) is None <==> forall|j: int|
            from <= j < llms.len() ==> (#[trigger] llms[j]).violation() is None,
    decreases llms.len() - from,
{
    if from < llms.len() {
        lemma_llm_violations(llms, from + 1);
    }
}

proof fn lemma_policy_violations(policies: Seq<PolicyView>, from: int)
    requires
        0 <= from,
    ensures
        first_policy_violation(policies, from) is None <==> forall|i: int|
            from <= i < policies.len() ==> (#[trigger] policies[i]).is_valid(),
    decreases policies.len() - from,
{
    if from < policies.len() {
        lemma_policy_violations(policies, from + 1);
        let p = policies[from];
        lemma_llm_violations(p.llms, 0);
        if p.violation() is None {
            assert forall|j: int| 0 <= j < p.llms.len() implies (#[trigger] p.llms[j]).api_base.len()
                > 0 && p.llms[j].model.len() > 0 && p.llms[j].api_key.len() > 0 by {
                assert(p.llms[j].violation() is None);
            }
        }
        if p.is_valid() {
            assert forall|j: int| 0 <= j < p.llms.len() implies (#[trigger] p.llms[j]).violation()
                is None by {
                assert(p.llms[j].api_base.len() > 0);
            }
        }
    }
}

/// A catalog has no violation exactly when it is valid.
pub proof fn lemma_violation_iff_invalid(config: RouterConfigView)
    ensures
        config.violation() is None <==> config.is_valid(),
{
    lemma_policy_violations(config.policies, 0);
}

fn validate_llm(llm: &Llm) -> (r: Result<(), ConfigError>)
    ensures
        r is Ok <==> llm@.violation() is None,
        r is Err ==> Some(r->Err_0@) == llm@.violation(),
{
    if llm.api_base.as_str().is_empty() {
        return Err(
            ConfigError::MissingLlmField { llm: llm.name.clone(), field: "api_base".to_owned() },
        );
    }
    if llm.model.as_str().is_empty() {
        return Err(
            ConfigError::MissingLlmField { llm: llm.name.clone(), field: "model".to_owned() },
        );
    }
    if llm.api_key.as_str().is_empty() {
        return Err(
            ConfigError::MissingLlmField { llm: llm.name.clone(), field: "api_key".to_owned() },
        );
    }
    Ok(())
}

fn validate_policy(policy: &Policy) -> (r: Result<(), ConfigError>)
    ensures
        r is Ok <==> policy@.violation() is None,
        r is Err ==> Some(r->Err_0@) == policy@.violation(),
{
    if policy.name.as_str().is_empty() {
        return Err(
            ConfigError::MissingPolicyField { policy: policy.name.clone(), field: "name".to_owned() },
        );
    }
    let mut j: usize = 0;
    while j < policy.llms.len()
        invariant
            j <= policy.llms.len(),
            policy@.name.len() > 0,
            first_llm_violation(policy@.llms, 0) == first_llm_violation(policy@.llms, j as int),
        decreases policy.llms.len() - j,
    {
        match validate_llm(&policy.llms[j]) {
            Ok(()) => {},
            Err(e) => {
                return Err(e);
            },
        }
        j = j + 1;
    }
    Ok(())
}

/// Checks that every policy has a name and every LLM entry an `api_base`, a
/// `model` and an `api_key`. The error names the first field found missing,
/// policies and entries taken in order.
pub fn validate_config(config: &RouterConfig) -> (r: Result<(), ConfigError>)
    ensures
        r is Ok <==> config@.is_valid(),
        r is Err ==> Some(r->Err_0@) == config@.violation(),
{
    proof {
        lemma_violation_iff_invalid(config@);
    }
    let mut i: usize = 0;
    while i < config.policies.len()
        invariant
            i <= config.policies.len(),
            config@.violation() is None <==> config@.is_valid(),
            first_policy_violation(config@.policies, 0) == first_policy_violation(
                config@.policies,
                i as int,
            ),
        decreases config.policies.len() - i,
    {
        match validate_policy(&config.policies[i]) {
            Ok(()) => {},
            Err(e) => {
                return Err(e);
            },
        }
        i = i + 1;
    }
    Ok(())
}

} // verus!
