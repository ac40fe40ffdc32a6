use std::sync::{Arc, Mutex};

use kiro_admin::classify::{classify_balance_message, classify_message};
use kiro_admin::service::{needs_failover, status_response, AdminService, CredentialPool};
use kiro_admin::types::{AdminServiceError, CredentialEntry, CredentialSnapshot};

struct PoolState {
    current_index: usize,
    entries: Vec<CredentialEntry>,
    switch_calls: usize,
}

struct MockPool {
    state: Mutex<PoolState>,
    switch_fails: bool,
}

fn entry(index: usize, priority: u32) -> CredentialEntry {
    CredentialEntry {
        index,
        priority,
        disabled: false,
        failure_count: 0,
        expires_at: None,
        auth_method: Some("social".to_string()),
        has_profile_arn: false,
    }
}

fn pool(n: usize, current_index: usize, switch_fails: bool) -> Arc<MockPool> {
    let entries = (0..n).map(|i| entry(i, i as u32)).collect();
    Arc::new(MockPool {
        state: Mutex::new(PoolState { current_index, entries, switch_calls: 0 }),
        switch_fails,
    })
}

fn out_of_range(index: usize) -> anyhow::Error {
    anyhow::Error::msg(format!("凭据索引超出范围: {}", index))
}

impl CredentialPool for MockPool {
    fn snapshot(&self) -> CredentialSnapshot {
        let s = self.state.lock().unwrap();
        CredentialSnapshot {
            total: s.entries.len(),
            available: s.entries.iter().filter(|e| !e.disabled).count(),
            current_index: s.current_index,
            entries: s.entries.clone(),
        }
    }

    fn set_disabled(&self, index: usize, disabled: bool) -> Result<(), anyhow::Error> {
        let mut s = self.state.lock().unwrap();
        match s.entries.iter_mut().find(|e| e.index == index) {
            Some(e) => {
                e.disabled = disabled;
                Ok(())
            }
            None => Err(out_of_range(index)),
        }
    }

    fn set_priority(&self, index: usize, priority: u32) -> Result<(), anyhow::Error> {
        let mut s = self.state.lock().unwrap();
        match s.entries.iter_mut().find(|e| e.index == index) {
            Some(e) => {
                e.priority = priority;
                Ok(())
            }
            None => Err(out_of_range(index)),
        }
    }

    fn reset_and_enable(&self, index: usize) -> Result<(), anyhow::Error> {
        let mut s = self.state.lock().unwrap();
        if index == 99 {
            return Err(anyhow::Error::msg("配置错误"));
        }
        match s.entries.iter_mut().find(|e| e.index == index) {
            Some(e) => {
                e.failure_count = 0;
                e.disabled = false;
                Ok(())
            }
            None => Err(out_of_range(index)),
        }
    }

    fn switch_to_next(&self) -> Result<(), anyhow::Error> {
        let mut s = self.state.lock().unwrap();
        s.switch_calls += 1;
        if self.switch_fails {
            return Err(anyhow::Error::msg("没有可用的凭据"));
        }
        let cur = s.current_index;
        let next = s.entries.iter().find(|e| !e.disabled && e.index != cur).map(|e| e.index);
        match next {
            Some(i) => {
                s.current_index = i;
                Ok(())
            }
            None => Err(anyhow::Error::msg("没有可用的凭据")),
        }
    }
}

#[test]
fn three_credentials_one_current() {
    let p = pool(3, 1, false);
    let service = AdminService::new(p.clone());
    let r = service.get_all_credentials();
    assert_eq!(r.total, 3);
    assert_eq!(r.available, 3);
    assert_eq!(r.current_index, 1);
    assert_eq!(r.credentials.len(), 3);
    let current: Vec<usize> = r.credentials.iter().filter(|c| c.is_current).map(|c| c.index).collect();
    assert_eq!(current, vec![1]);
    assert_eq!(r.credentials.iter().map(|c| c.index).collect::<Vec<_>>(), vec![0, 1, 2]);
    assert_eq!(r.credentials[2].priority, 2);
    assert_eq!(r.credentials[0].auth_method, Some("social".to_string()));
}

#[test]
fn stale_current_index_marks_none() {
    let p = pool(3, 7, false);
    let r = AdminService::new(p).get_all_credentials();
    assert_eq!(r.credentials.iter().filter(|c| c.is_current).count(), 0);
}

#[test]
fn empty_pool_has_no_items() {
    let p = pool(0, 0, false);
    let r = AdminService::new(p).get_all_credentials();
    assert_eq!(r.total, 0);
    assert!(r.credentials.is_empty());
}

#[test]
fn status_keeps_snapshot_order_and_fields() {
    let mut e = entry(5, 9);
    e.disabled = true;
    e.failure_count = 4;
    e.expires_at = Some("2030-01-01T00:00:00Z".to_string());
    e.has_profile_arn = true;
    let snapshot = CredentialSnapshot {
        total: 2,
        available: 1,
        current_index: 2,
        entries: vec![e, entry(2, 1)],
    };
    let r = status_response(snapshot);
    assert_eq!(r.available, 1);
    assert_eq!(r.credentials[0].index, 5);
    assert!(r.credentials[0].disabled);
    assert_eq!(r.credentials[0].failure_count, 4);
    assert_eq!(r.credentials[0].expires_at, Some("2030-01-01T00:00:00Z".to_string()));
    assert!(r.credentials[0].has_profile_arn);
    assert!(!r.credentials[0].is_current);
    assert!(r.credentials[1].is_current);
}

#[test]
fn disabling_current_without_alternative_succeeds() {
    let p = pool(1, 0, true);
    let service = AdminService::new(p.clone());
    assert_eq!(service.set_disabled(0, true), Ok(()));
    let s = p.state.lock().unwrap();
    assert_eq!(s.switch_calls, 1);
    assert!(s.entries[0].disabled);
}

#[test]
fn disabling_current_switches_to_next() {
    let p = pool(3, 1, false);
    let service = AdminService::new(p.clone());
    assert_eq!(service.set_disabled(1, true), Ok(()));
    let r = service.get_all_credentials();
    assert_eq!(r.current_index, 0);
    assert_eq!(r.available, 2);
}

#[test]
fn disabling_other_credential_does_not_switch() {
    let p = pool(3, 1, false);
    let service = AdminService::new(p.clone());
    assert_eq!(service.set_disabled(2, true), Ok(()));
    assert_eq!(p.state.lock().unwrap().switch_calls, 0);
}

#[test]
fn enabling_current_does_not_switch() {
    let p = pool(3, 1, false);
    let service = AdminService::new(p.clone());
    assert_eq!(service.set_disabled(1, false), Ok(()));
    assert_eq!(p.state.lock().unwrap().switch_calls, 0);
}

#[test]
fn failover_decision() {
    assert!(needs_failover(1, true, 1));
    assert!(!needs_failover(1, false, 1));
    assert!(!needs_failover(2, true, 1));
}

#[test]
fn disabling_unknown_index_is_not_found() {
    let p = pool(3, 1, false);
    let service = AdminService::new(p.clone());
    assert_eq!(
        service.set_disabled(7, true),
        Err(AdminServiceError::NotFound { index: 7, total: 3 })
    );
    assert_eq!(p.state.lock().unwrap().switch_calls, 0);
}

#[test]
fn set_priority_updates_and_reports_missing() {
    let p = pool(2, 0, false);
    let service = AdminService::new(p.clone());
    assert_eq!(service.set_priority(1, 42), Ok(()));
    assert_eq!(service.get_all_credentials().credentials[1].priority, 42);
    assert_eq!(
        service.set_priority(5, 1),
        Err(AdminServiceError::NotFound { index: 5, total: 2 })
    );
}

#[test]
fn reset_and_enable_clears_failures() {
    let p = pool(2, 0, false);
    {
        let mut s = p.state.lock().unwrap();
        s.entries[1].disabled = true;
        s.entries[1].failure_count = 3;
    }
    let service = AdminService::new(p.clone());
    assert_eq!(service.reset_and_enable(1), Ok(()));
    let r = service.get_all_credentials();
    assert!(!r.credentials[1].disabled);
    assert_eq!(r.credentials[1].failure_count, 0);
}

#[test]
fn reset_and_enable_other_failure_is_internal() {
    let p = pool(2, 0, false);
    let service = AdminService::new(p);
    assert_eq!(
        service.reset_and_enable(99),
        Err(AdminServiceError::InternalError("配置错误".to_string()))
    );
}

#[test]
fn classify_error_reads_the_message() {
    let service = AdminService::new(pool(1, 0, false));
    assert_eq!(
        service.classify_error(out_of_range(4), 4, 1),
        AdminServiceError::NotFound { index: 4, total: 1 }
    );
    assert_eq!(
        service.classify_error(anyhow::Error::msg("connection refused"), 0, 1),
        AdminServiceError::InternalError("connection refused".to_string())
    );
    assert_eq!(
        service.classify_balance_error(anyhow::Error::msg("connection refused"), 0, 1),
        AdminServiceError::UpstreamError("connection refused".to_string())
    );
}

#[test]
fn simple_classifier_never_reports_upstream() {
    assert_eq!(
        classify_message("请求 timeout".to_string(), 1, 2),
        AdminServiceError::InternalError("请求 timeout".to_string())
    );
    assert_eq!(
        classify_message("索引超出范围".to_string(), 1, 2),
        AdminServiceError::NotFound { index: 1, total: 2 }
    );
}

#[test]
fn balance_classifier_upstream_phrases() {
    let phrases = [
        "凭证已过期或无效",
        "权限不足",
        "已被限流",
        "服务器错误",
        "Token 刷新失败",
        "暂时不可用",
        "error trying to connect",
        "connection",
        "timeout",
        "timed out",
    ];
    for p in phrases {
        let msg = format!("刷新失败: {} (status 500)", p);
        assert_eq!(
            classify_balance_message(msg.clone(), 3, 4),
            AdminServiceError::UpstreamError(msg)
        );
    }
}

#[test]
fn balance_classifier_out_of_range_wins() {
    assert_eq!(
        classify_balance_message("索引超出范围, connection timeout".to_string(), 9, 4),
        AdminServiceError::NotFound { index: 9, total: 4 }
    );
}

#[test]
fn balance_classifier_other_is_internal() {
    assert_eq!(
        classify_balance_message("缺少 refreshToken".to_string(), 0, 1),
        AdminServiceError::InternalError("缺少 refreshToken".to_string())
    );
    assert_eq!(
        classify_balance_message(String::new(), 0, 1),
        AdminServiceError::InternalError(String::new())
    );
}

#[test]
fn report_mutation_passes_success_and_classifies_failure() {
    let service = AdminService::new(pool(2, 0, false));
    assert_eq!(service.report_mutation(Ok(()), 1, 2), Ok(()));
    assert_eq!(
        service.report_mutation(Err(out_of_range(5)), 5, 2),
        Err(AdminServiceError::NotFound { index: 5, total: 2 })
    );
    assert_eq!(
        service.report_mutation(Err(anyhow::Error::msg("request timeout")), 1, 2),
        Err(AdminServiceError::InternalError("request timeout".to_string()))
    );
}
