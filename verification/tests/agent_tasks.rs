use codex_usage::agent_tasks::{
    chatgpt_base_url_or_default, AgentIdentityAuth, AgentIdentityAuthRecord, AgentTaskCacheKey,
    AgentTaskExternalRef, AgentTaskKind, PlanType, RegisteredAgentTask,
};

fn agent_identity_record() -> AgentIdentityAuthRecord {
    AgentIdentityAuthRecord {
        agent_runtime_id: "agent-runtime-1".to_string(),
        agent_private_key: "private-key".to_string(),
        account_id: "account-1".to_string(),
        chatgpt_user_id: "user-1".to_string(),
        email: "agent@example.com".to_string(),
        plan_type: PlanType::Plus,
        chatgpt_account_is_fedramp: false,
        registered_at: None,
    }
}

fn thread(r: &str) -> AgentTaskCacheKey {
    AgentTaskCacheKey::Thread(AgentTaskExternalRef::new(r))
}

/// Looks a thread task up, registering it with `server` when it is not
/// registered yet, as the identity's callers do.
fn registered_thread_task(
    auth: &mut AgentIdentityAuth,
    external_ref: &str,
    server: &mut dyn FnMut(&str) -> Result<String, String>,
) -> Result<RegisteredAgentTask, String> {
    let task_id = match auth.task_id_for_initialized_key(&thread(external_ref)) {
        Some(id) => id,
        None => auth.complete_task_registration(thread(external_ref), server(external_ref))?,
    };
    Ok(auth.registered_task(task_id, AgentTaskKind::Thread))
}

#[test]
fn registered_thread_task_registers_once_per_external_ref() {
    let mut auth = AgentIdentityAuth::new(agent_identity_record());
    let mut requests = 0;
    let mut server = |r: &str| {
        requests += 1;
        Ok(format!("task-{r}"))
    };
    let first = registered_thread_task(&mut auth, "thread-1", &mut server).unwrap();
    let second = registered_thread_task(&mut auth, "thread-1", &mut server).unwrap();
    assert_eq!(first, second);
    assert_eq!(
        first,
        RegisteredAgentTask {
            agent_runtime_id: "agent-runtime-1".to_string(),
            task_id: "task-thread-1".to_string(),
            kind: AgentTaskKind::Thread,
        }
    );
    assert_eq!(requests, 1);
}

#[test]
fn registered_thread_task_uses_distinct_external_refs() {
    let mut auth = AgentIdentityAuth::new(agent_identity_record());
    let mut server = |r: &str| Ok(format!("task-{r}"));
    let first = registered_thread_task(&mut auth, "thread-1", &mut server).unwrap();
    let second = registered_thread_task(&mut auth, "thread-2", &mut server).unwrap();
    assert_eq!(first.task_id.as_str(), "task-thread-1");
    assert_eq!(second.task_id.as_str(), "task-thread-2");
}

#[test]
fn failed_thread_task_registration_can_retry() {
    let mut auth = AgentIdentityAuth::new(agent_identity_record());
    let mut requests = 0;
    let mut server = |r: &str| {
        requests += 1;
        if requests == 1 {
            Err("500".to_string())
        } else {
            Ok(format!("task-{r}"))
        }
    };
    registered_thread_task(&mut auth, "thread-1", &mut server)
        .expect_err("first registration should fail");
    let task = registered_thread_task(&mut auth, "thread-1", &mut server).unwrap();
    assert_eq!(requests, 2);
    assert_eq!(task.task_id.as_str(), "task-thread-1");
}

#[test]
fn process_task_slot_is_read_back() {
    let mut auth = AgentIdentityAuth::new(agent_identity_record());
    assert_eq!(auth.process_task_id(), None);
    let set = auth.complete_task_registration::<String>(
        AgentTaskCacheKey::Process,
        Ok("process-task-1".to_string()),
    );
    assert_eq!(set, Ok("process-task-1".to_string()));
    assert_eq!(auth.process_task_id(), Some("process-task-1".to_string()));
}

#[test]
fn first_registration_wins() {
    let mut auth = AgentIdentityAuth::new(agent_identity_record());
    let a = auth.complete_task_registration::<String>(thread("t"), Ok("a".to_string()));
    let b = auth.complete_task_registration::<String>(thread("t"), Ok("b".to_string()));
    assert_eq!(a, Ok("a".to_string()));
    assert_eq!(b, Ok("a".to_string()));
    assert_eq!(auth.process_task_id(), None);
}

#[test]
fn identity_getters_read_the_record() {
    let auth = AgentIdentityAuth::new(agent_identity_record());
    assert_eq!(auth.account_id(), "account-1");
    assert_eq!(auth.chatgpt_user_id(), "user-1");
    assert_eq!(auth.email(), "agent@example.com");
    assert_eq!(auth.plan_type(), PlanType::Plus);
    assert!(!auth.is_fedramp_account());
    assert_eq!(auth.record(), &agent_identity_record());
}

#[test]
fn base_url_defaults_to_chatgpt_backend() {
    assert_eq!(chatgpt_base_url_or_default(None), "https://chatgpt.com/backend-api");
    assert_eq!(chatgpt_base_url_or_default(Some("http://x".to_string())), "http://x");
}
