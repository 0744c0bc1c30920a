use power_monitor::{EnergySubscription, OpenOutcome, OpenProgress, OpenRequest, OpenStep};

/// Carries an opening out against scripted replies and records what was
/// asked for and released.
fn open_with(replies: &[usize]) -> (Option<EnergySubscription>, Vec<OpenRequest>, Vec<usize>) {
    let mut requests = Vec::new();
    let mut released = Vec::new();
    let mut replies = replies.iter();
    let mut step: OpenStep = EnergySubscription::open();
    loop {
        let OpenStep { outcome, release } = step;
        if let Some(handle) = release {
            released.push(handle.release());
        }
        match outcome {
            OpenOutcome::Opened(subscription) => return (Some(subscription), requests, released),
            OpenOutcome::Unavailable => return (None, requests, released),
            OpenOutcome::Pending { progress, request } => {
                requests.push(request);
                let reply = *replies.next().unwrap();
                step = EnergySubscription::resume(progress, reply);
            }
        }
    }
}

#[test]
fn opening_starts_with_the_channel_group() {
    let step = EnergySubscription::open();
    assert!(step.release.is_none());
    match step.outcome {
        OpenOutcome::Pending { progress, request } => {
            assert!(matches!(progress, OpenProgress::Start));
            assert_eq!(request, OpenRequest::CopyChannelGroup);
        }
        _ => panic!("the opening has not begun"),
    }
}

#[test]
fn opening_takes_four_calls() {
    let (subscription, requests, released) = open_with(&[0x10, 0x11, 0x20, 0x30]);
    let subscription = subscription.unwrap();
    assert_eq!(
        requests,
        vec![
            OpenRequest::CopyChannelGroup,
            OpenRequest::FindChannelList { group: 0x10 },
            OpenRequest::CopyDescriptors { group: 0x10 },
            OpenRequest::Subscribe { channels: 0x20 },
        ]
    );
    // The copied group is released; the list was only borrowed from it.
    assert_eq!(released, vec![0x10]);
    assert_eq!(subscription.subscription_id(), 0x30);
    assert_eq!(subscription.channels_id(), 0x20);
}

#[test]
fn no_channel_group_means_no_subscription() {
    let (subscription, requests, released) = open_with(&[0]);
    assert!(subscription.is_none());
    assert_eq!(requests, vec![OpenRequest::CopyChannelGroup]);
    assert!(released.is_empty());
}

#[test]
fn a_group_without_a_list_is_released() {
    let (subscription, requests, released) = open_with(&[0x10, 0]);
    assert!(subscription.is_none());
    assert_eq!(requests.len(), 2);
    assert_eq!(released, vec![0x10]);
}

#[test]
fn a_failed_copy_releases_the_group() {
    let (subscription, requests, released) = open_with(&[0x10, 0x11, 0]);
    assert!(subscription.is_none());
    assert_eq!(requests.len(), 3);
    assert_eq!(released, vec![0x10]);
}

#[test]
fn a_failed_subscription_releases_the_descriptors() {
    let (subscription, requests, released) = open_with(&[0x10, 0x11, 0x20, 0]);
    assert!(subscription.is_none());
    assert_eq!(requests.len(), 4);
    assert_eq!(released, vec![0x10, 0x20]);
}

#[test]
fn closing_hands_both_handles_back() {
    let (subscription, _, _) = open_with(&[0x10, 0x11, 0x20, 0x30]);
    let (first, second) = subscription.unwrap().close();
    assert_eq!(first.release(), 0x30);
    assert_eq!(second.release(), 0x20);
}

#[test]
fn every_reference_of_an_opening_is_accounted_for() {
    // The second reply is a borrowed list and never owned.
    let scripts: [&[usize]; 5] = [
        &[0],
        &[0x10, 0],
        &[0x10, 0x11, 0],
        &[0x10, 0x11, 0x20, 0],
        &[0x10, 0x11, 0x20, 0x30],
    ];
    for replies in scripts.iter() {
        let mut owned: Vec<usize> = replies
            .iter()
            .enumerate()
            .filter(|(position, reply)| *position != 1 && **reply != 0)
            .map(|(_, reply)| *reply)
            .collect();
        let (subscription, _, mut released) = open_with(replies);
        if let Some(subscription) = subscription {
            let (first, second) = subscription.close();
            released.push(first.release());
            released.push(second.release());
        }
        owned.sort();
        released.sort();
        assert_eq!(owned, released);
    }
}
