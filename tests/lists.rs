use foundation_api::lists::{
    response_outcome, ListmonkAddSubscribers, ListmonkCreateSubscriber, MailingLists, MailingListsConfigError,
    MailingListsError, Subscriber,
};

#[test]
fn email_addresses_are_checked() {
    assert!(Subscriber { email: "someone@example.org".to_string() }.valid_email());
    assert!(!Subscriber { email: "not an address".to_string() }.valid_email());
}

#[test]
fn list_ids_are_read_from_json() {
    let lists = MailingLists::load("https://lists.example", "api", "hunter2".to_string(), "[1, 4]").ok().unwrap();
    assert_eq!(lists.lists, vec![1, 4]);
    assert_eq!(lists.user, "api");
    assert_eq!(
        MailingLists::load("https://lists.example", "api", String::new(), "one").err(),
        Some(MailingListsConfigError::InvalidListIds)
    );
}

#[test]
fn subscription_requires_a_known_list() {
    let lists = MailingLists::load("https://lists.example", "api", String::new(), "[1, 4]").ok().unwrap();
    let s = Subscriber { email: "someone@example.org".to_string() };
    let req = lists.subscription_request(&s, 4).ok().unwrap();
    assert_eq!(req.email, "someone@example.org");
    assert_eq!(req.name, "NewsSubscriber");
    assert_eq!(req.status, "enabled");
    assert_eq!(req.lists, vec![4]);
    let err = lists.subscription_request(&s, 2).err().unwrap();
    assert_eq!(err, MailingListsError::InvalidMailingListId);
    assert_eq!(err.status_code(), 400);
    assert_eq!(err.message(), "Invalid Mailing List ID");
}

#[test]
fn service_answers_are_classified() {
    assert_eq!(response_outcome(false, 0, false), Err(MailingListsError::RequestError));
    assert_eq!(response_outcome(true, 500, true), Err(MailingListsError::ListmonkError));
    assert_eq!(response_outcome(true, 200, false), Err(MailingListsError::ListmonkError));
    assert_eq!(response_outcome(true, 200, true), Ok(()));
    assert_eq!(MailingListsError::RequestError.status_code(), 500);
}

#[test]
fn listmonk_payloads() {
    let s = Subscriber { email: "a@b.example".to_string() };
    let c = ListmonkCreateSubscriber::load(&s, vec![3]);
    assert_eq!((c.name.as_str(), c.status.as_str()), ("NewsSubscriber", "enabled"));
    let a = ListmonkAddSubscribers::load(12, 3);
    assert_eq!(a.ids, vec![12]);
    assert_eq!(a.target_list_ids, vec![3]);
    assert_eq!((a.action.as_str(), a.status.as_str()), ("add", "unconfirmed"));
}
