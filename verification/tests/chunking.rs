use expo_push_notification_client::{Expo, ExpoClientOptions, ExpoPushMessage};

fn messages(count: usize) -> Vec<ExpoPushMessage> {
    (0..count)
        .map(|i| {
            ExpoPushMessage::builder(vec![format!("ExponentPushToken[{}]", i)])
                .body("Test message")
                .build()
                .expect("message is valid")
        })
        .collect()
}

#[test]
fn test_chunk_push_notifications() {
    let expo = Expo::new(ExpoClientOptions::default());

    let chunks = expo.chunk_push_notifications(messages(250));

    assert_eq!(chunks.len(), 3);
    assert_eq!(chunks[0].len(), 100);
    assert_eq!(chunks[1].len(), 100);
    assert_eq!(chunks[2].len(), 50);
}

#[test]
fn chunk_empty_input_yields_no_chunks() {
    let expo = Expo::new(ExpoClientOptions::default());
    let chunks = expo.chunk_push_notifications(Vec::new());
    assert_eq!(chunks.len(), 0);
}

#[test]
fn chunk_exactly_one_limit_yields_one_chunk() {
    let expo = Expo::new(ExpoClientOptions::default());
    let chunks = expo.chunk_push_notifications(messages(100));
    assert_eq!(chunks.len(), 1);
    assert_eq!(chunks[0].len(), 100);
}

#[test]
fn chunk_concatenation_reproduces_input_order() {
    let expo = Expo::new(ExpoClientOptions::default());
    let original = messages(205);
    let again = messages(205);
    let chunks = expo.chunk_push_notifications(again);
    let flattened: Vec<ExpoPushMessage> = chunks.into_iter().flatten().collect();
    assert_eq!(flattened, original);
}

#[test]
fn impl_clone_for_expo() {
    fn assert_impl_clone<T: Clone>() {}
    assert_impl_clone::<Expo>();
}
