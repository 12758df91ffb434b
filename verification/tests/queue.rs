use skycurrent::queue::{LinkMessageQueue, MessageConsumer};

fn next_payload(consumer: &mut MessageConsumer, queue: &LinkMessageQueue) -> Option<Vec<u8>> {
    consumer.try_next(queue).map(|m| m.read(queue).cloned().expect("unclaimed"))
}

#[test]
fn empty_queue_has_nothing_to_visit() {
    let queue = LinkMessageQueue::new();
    let mut consumer = queue.create_consumer();
    assert!(consumer.try_next(&queue).is_none());
    assert_eq!(queue.len(), 0);
}

#[test]
fn consumer_visits_messages_in_arrival_order_once() {
    let mut queue = LinkMessageQueue::new();
    queue.push(b"one".to_vec());
    queue.push(b"two".to_vec());
    let mut consumer = queue.create_consumer();
    assert_eq!(next_payload(&mut consumer, &queue), Some(b"one".to_vec()));
    queue.push(b"three".to_vec());
    assert_eq!(next_payload(&mut consumer, &queue), Some(b"two".to_vec()));
    assert_eq!(next_payload(&mut consumer, &queue), Some(b"three".to_vec()));
    assert_eq!(next_payload(&mut consumer, &queue), None);
    assert_eq!(next_payload(&mut consumer, &queue), None);
}

#[test]
fn pushed_message_is_next_after_running_dry() {
    let mut queue = LinkMessageQueue::new();
    let mut consumer = queue.create_consumer();
    assert!(consumer.try_next(&queue).is_none());
    queue.push(vec![7, 8, 9]);
    assert_eq!(next_payload(&mut consumer, &queue), Some(vec![7, 8, 9]));
}

#[test]
fn claim_is_exclusive() {
    let mut queue = LinkMessageQueue::new();
    queue.push(b"job".to_vec());
    let mut first = queue.create_consumer();
    let mut second = queue.create_consumer();
    let mut m1 = first.try_next(&queue).expect("a message");
    let mut m2 = second.try_next(&queue).expect("a message");
    assert_eq!(m1.claim(&mut queue), Some(b"job".to_vec()));
    assert_eq!(m2.claim(&mut queue), None);
    assert!(m1.read(&queue).is_none());
    assert!(m2.read(&queue).is_none());
}

#[test]
fn claimed_messages_are_skipped() {
    let mut queue = LinkMessageQueue::new();
    queue.push(b"a".to_vec());
    queue.push(b"b".to_vec());
    queue.push(b"c".to_vec());
    let mut claimer = queue.create_consumer();
    let mut a = claimer.try_next(&queue).unwrap();
    let mut b = claimer.try_next(&queue).unwrap();
    assert_eq!(b.claim(&mut queue), Some(b"b".to_vec()));
    let mut reader = queue.create_consumer();
    assert_eq!(next_payload(&mut reader, &queue), Some(b"a".to_vec()));
    assert_eq!(next_payload(&mut reader, &queue), Some(b"c".to_vec()));
    assert_eq!(next_payload(&mut reader, &queue), None);
    assert_eq!(a.claim(&mut queue), Some(b"a".to_vec()));
    let mut late = queue.create_consumer();
    assert_eq!(next_payload(&mut late, &queue), Some(b"c".to_vec()));
}

#[test]
fn read_does_not_claim() {
    let mut queue = LinkMessageQueue::new();
    queue.push(vec![1, 2, 3]);
    let mut consumer = queue.create_consumer();
    let mut message = consumer.try_next(&queue).unwrap();
    assert_eq!(message.read(&queue), Some(&vec![1, 2, 3]));
    assert_eq!(message.read(&queue), Some(&vec![1, 2, 3]));
    assert_eq!(message.claim(&mut queue), Some(vec![1, 2, 3]));
    assert_eq!(message.read(&queue), None);
}

#[test]
fn message_of_another_queue_reads_as_claimed() {
    let mut big = LinkMessageQueue::new();
    big.push(vec![1]);
    big.push(vec![2]);
    let mut consumer = big.create_consumer();
    consumer.try_next(&big).unwrap();
    let mut second = consumer.try_next(&big).unwrap();
    let mut small = LinkMessageQueue::new();
    small.push(vec![9]);
    assert_eq!(second.read(&small), None);
    assert_eq!(second.claim(&mut small), None);
    assert_eq!(small.len(), 1);
}

#[test]
fn consumers_are_independent() {
    let mut queue = LinkMessageQueue::new();
    queue.push(vec![1]);
    queue.push(vec![2]);
    let mut fast = queue.create_consumer();
    let mut slow = queue.create_consumer();
    assert_eq!(next_payload(&mut fast, &queue), Some(vec![1]));
    assert_eq!(next_payload(&mut fast, &queue), Some(vec![2]));
    assert_eq!(next_payload(&mut slow, &queue), Some(vec![1]));
    assert_eq!(next_payload(&mut slow, &queue), Some(vec![2]));
}

#[test]
fn empty_payload_is_a_message() {
    let mut queue = LinkMessageQueue::new();
    queue.push(Vec::new());
    let mut consumer = queue.create_consumer();
    let mut m = consumer.try_next(&queue).expect("an empty message is still a message");
    assert_eq!(m.claim(&mut queue), Some(Vec::new()));
}

#[test]
fn claims_out_of_order_keep_the_rest() {
    let mut queue = LinkMessageQueue::new();
    for i in 0u8..6 {
        queue.push(vec![i]);
    }
    let mut c = queue.create_consumer();
    let mut handles = Vec::new();
    while let Some(m) = c.try_next(&queue) {
        handles.push(m);
    }
    assert_eq!(handles.len(), 6);
    assert_eq!(handles[3].claim(&mut queue), Some(vec![3]));
    assert_eq!(handles[0].claim(&mut queue), Some(vec![0]));
    assert_eq!(handles[1].claim(&mut queue), Some(vec![1]));
    assert_eq!(handles[0].claim(&mut queue), None);
    assert_eq!(handles[1].read(&queue), None);
    assert_eq!(handles[2].read(&queue), Some(&vec![2]));
    assert_eq!(queue.len(), 6);
    let mut fresh = queue.create_consumer();
    assert_eq!(next_payload(&mut fresh, &queue), Some(vec![2]));
    assert_eq!(next_payload(&mut fresh, &queue), Some(vec![4]));
    assert_eq!(next_payload(&mut fresh, &queue), Some(vec![5]));
    assert_eq!(next_payload(&mut fresh, &queue), None);
    queue.push(vec![6]);
    assert_eq!(next_payload(&mut c, &queue), Some(vec![6]));
    assert_eq!(next_payload(&mut fresh, &queue), Some(vec![6]));
}

#[test]
fn second_claim_fails_however_the_queue_grows() {
    let mut queue = LinkMessageQueue::new();
    queue.push(b"once".to_vec());
    let mut consumer = queue.create_consumer();
    let mut first = consumer.try_next(&queue).unwrap();
    let mut copy = first;
    assert_eq!(first.claim(&mut queue), Some(b"once".to_vec()));
    queue.push(b"later".to_vec());
    assert_eq!(copy.read(&queue), None);
    assert_eq!(copy.claim(&mut queue), None);
}
