use sshscan::enumerate::enumerate_attempts;

fn strings(v: &[&str]) -> Vec<String> {
    v.iter().map(|s| s.to_string()).collect()
}

#[test]
fn cross_product_full() {
    let targets = strings(&["h1", "h2"]);
    let usernames = strings(&["alice", "bob", "carol"]);
    let descs = enumerate_attempts(&targets, &usernames);
    assert_eq!(descs.len(), 6);
    for i in 0..2 {
        for j in 0..3 {
            let d = &descs[i * 3 + j];
            assert_eq!(d.host_idx, i);
            assert_eq!(d.user_idx, j);
            assert_eq!(d.target, targets[i]);
            assert_eq!(d.username, usernames[j]);
        }
    }
}

#[test]
fn cross_product_targets_outer() {
    let targets = strings(&["h1", "h2"]);
    let usernames = strings(&["alice", "bob"]);
    let descs = enumerate_attempts(&targets, &usernames);
    let pairs: Vec<(String, String)> =
        descs.iter().map(|d| (d.target.clone(), d.username.clone())).collect();
    assert_eq!(
        pairs,
        vec![
            ("h1".to_string(), "alice".to_string()),
            ("h1".to_string(), "bob".to_string()),
            ("h2".to_string(), "alice".to_string()),
            ("h2".to_string(), "bob".to_string()),
        ]
    );
}

#[test]
fn empty_targets_yield_nothing() {
    let targets = strings(&[]);
    let usernames = strings(&["alice", "bob"]);
    let descs = enumerate_attempts(&targets, &usernames);
    assert_eq!(descs.len(), 0);
}

#[test]
fn empty_usernames_yield_nothing() {
    let targets = strings(&["h1", "h2"]);
    let usernames = strings(&[]);
    let descs = enumerate_attempts(&targets, &usernames);
    assert_eq!(descs.len(), 0);
}

#[test]
fn single_pair() {
    let targets = strings(&["h1"]);
    let usernames = strings(&["root"]);
    let descs = enumerate_attempts(&targets, &usernames);
    assert_eq!(descs.len(), 1);
    assert_eq!(descs[0].target, "h1");
    assert_eq!(descs[0].username, "root");
    assert_eq!(descs[0].host_idx, 0);
    assert_eq!(descs[0].user_idx, 0);
}
