use mini_ray::codec::{decode, decoded, encode, encoded};
use mini_ray::error::MiniRayError;
use mini_ray::ids::{ActorId, ObjectId, TaskId, WorkerId};
use mini_ray::messages::{status_from_error, Code};
use mini_ray::refs::{ActorRef, ObjectRef};
use mini_ray::task::{ActorSpec, ActorTaskSpec, ObjectData, TaskSpec};

#[test]
fn object_ref_carries_id_and_type() {
    let id = ObjectId::new();
    let object_ref = ObjectRef::<u64>::new(id, "u64");

    assert_eq!(object_ref.id(), id);
    assert!(object_ref.type_label().contains("u64"));
    assert_eq!(object_ref.erase().id(), id);
    assert_eq!(object_ref.erase().type_label(), "()");
}

#[test]
fn actor_ref_carries_id_and_type() {
    let id = ActorId::new();
    let actor_ref = ActorRef::<String>::new(id, "alloc::string::String");

    assert_eq!(actor_ref.id(), id);
    assert!(actor_ref.type_label().contains("String"));
    assert_eq!(actor_ref.erase().id(), id);
    assert_eq!(actor_ref.erase().type_label(), "()");
}

#[test]
fn actor_specs_capture_constructor_and_method_dependencies() {
    let constructor_input = ObjectId::new();
    let actor_spec = ActorSpec::new("Counter", vec![constructor_input]);
    let method_input = ObjectId::new();
    let output = ObjectId::new();
    let method_spec =
        ActorTaskSpec::new(actor_spec.actor_id, "increment", vec![method_input], output);

    assert_eq!(actor_spec.actor_type, "Counter");
    assert_eq!(actor_spec.constructor_dependencies, vec![constructor_input]);
    assert_eq!(method_spec.actor_id, actor_spec.actor_id);
    assert_eq!(method_spec.method_id, "increment");
    assert_eq!(method_spec.dependencies, vec![method_input]);
    assert_eq!(method_spec.output_id, output);
}

#[test]
fn bincode_round_trip() {
    let encoded = encode(&41u64).unwrap();
    let decoded: u64 = decode(&encoded).unwrap();
    assert_eq!(decoded, 41);
}

#[test]
fn values_are_encoded_with_fixed_width() {
    assert_eq!(encode(&41u64).unwrap(), vec![41, 0, 0, 0, 0, 0, 0, 0]);
    assert_eq!(
        encode(&"ab".to_string()).unwrap(),
        vec![2, 0, 0, 0, 0, 0, 0, 0, 97, 98]
    );
}

#[test]
fn too_few_bytes_are_a_decode_error() {
    let err = decode::<u64>(&[1, 2, 3]).unwrap_err();
    assert!(matches!(err, MiniRayError::Decode(_)));
}

#[test]
fn outcomes_of_the_codec_become_errors_of_the_library() {
    assert_eq!(encoded(Ok(vec![1, 2])).unwrap(), vec![1, 2]);
    assert!(matches!(
        encoded(Err("no".to_string())),
        Err(MiniRayError::Encode(message)) if message == "no"
    ));
    assert_eq!(decoded(Ok(7u8)).unwrap(), 7);
    assert!(matches!(
        decoded::<u8>(Err("no".to_string())),
        Err(MiniRayError::Decode(message)) if message == "no"
    ));
}

#[test]
fn fresh_specs_are_retried_once_and_pinned_to_nobody() {
    let input = ObjectId::new();
    let output = ObjectId::new();
    let task = TaskSpec::new("add_one", vec![input], output);

    assert_eq!(task.function_id, "add_one");
    assert_eq!(task.dependencies, vec![input]);
    assert_eq!(task.output_id, output);
    assert_eq!(task.target_worker, None);
    assert_eq!(task.max_retries, 1);
    assert_eq!(task.attempt, 0);
    assert_eq!(task.clone(), task);

    let actor = ActorSpec::new("Counter", vec![input]);
    assert_eq!(actor.max_restarts, 0);
    assert_eq!(actor.clone(), actor);

    let call = ActorTaskSpec::new(actor.actor_id, "increment", vec![input], output);
    assert_eq!(call.max_retries, 1);
    assert_eq!(call.attempt, 0);
    assert_eq!(call.clone(), call);

    let object = ObjectData {
        id: output,
        bytes: vec![1, 2, 3],
    };
    assert_eq!(object.clone(), object);
}

#[test]
fn identifier_text_round_trip() {
    let text = "67e55044-10b1-426f-9247-bb680e5fe0c8";
    let id = ObjectId::from_string(text).unwrap();
    assert_eq!(id, ObjectId(0x67e5504410b1426f9247bb680e5fe0c8));
    assert_eq!(id.to_string(), text);
    assert_eq!(TaskId::from_string(text).unwrap().to_string(), text);
    assert_eq!(WorkerId::from_string(text).unwrap().to_string(), text);
    assert_eq!(ActorId::from_string(text).unwrap().to_string(), text);
    assert_eq!(
        ObjectId(10).to_string(),
        "00000000-0000-0000-0000-00000000000a"
    );
}

#[test]
fn every_way_to_write_an_identifier_is_read() {
    let id = ObjectId(0x67e5504410b1426f9247bb680e5fe0c8);
    for text in [
        "67e5504410b1426f9247bb680e5fe0c8",
        "67E5504410B1426F9247BB680E5FE0C8",
        "67e55044-10b1-426f-9247-bb680e5fe0c8",
        "67E55044-10B1-426F-9247-BB680E5FE0C8",
        "{67e55044-10b1-426f-9247-bb680e5fe0c8}",
        "urn:uuid:67e55044-10b1-426f-9247-bb680e5fe0c8",
        "URN:UUID:67e55044-10b1-426f-9247-bb680e5fe0c8",
    ] {
        assert_eq!(ObjectId::from_string(text).unwrap(), id);
    }
}

#[test]
fn other_texts_are_no_identifiers() {
    for text in [
        "",
        "not an identifier",
        "67e5504410b1426f9247bb680e5fe0c",
        "67e5504410b1426f9247bb680e5fe0cg",
        "67e55044_10b1_426f_9247_bb680e5fe0c8",
        "67e550441-0b1-426f-9247-bb680e5fe0c8",
        "(67e55044-10b1-426f-9247-bb680e5fe0c8)",
        "urn:guid:67e55044-10b1-426f-9247-bb680e5fe0c8",
    ] {
        assert!(matches!(
            ObjectId::from_string(text),
            Err(MiniRayError::Decode(_))
        ));
        assert!(matches!(
            TaskId::from_string(text),
            Err(MiniRayError::Decode(_))
        ));
        assert!(matches!(
            WorkerId::from_string(text),
            Err(MiniRayError::Decode(_))
        ));
        assert!(matches!(
            ActorId::from_string(text),
            Err(MiniRayError::Decode(_))
        ));
    }
}

#[test]
fn fresh_identifiers_differ_and_are_of_the_random_version() {
    let a = ObjectId::new();
    let b = ObjectId::new();
    assert_ne!(a, b);
    assert_eq!(&a.to_string()[14..15], "4");
    assert_eq!(ObjectId::from_string(&a.to_string()).unwrap(), a);
    assert_ne!(TaskId::new(), TaskId::new());
    assert_ne!(WorkerId::default(), WorkerId::default());
    assert_ne!(ActorId::default(), ActorId::default());
}

#[test]
fn errors_have_their_words_and_their_status() {
    let cases = [
        (
            MiniRayError::MissingObject(ObjectId(10)),
            "object 00000000-0000-0000-0000-00000000000a was not found",
            Code::NotFound,
        ),
        (
            MiniRayError::Encode("x".to_string()),
            "failed to encode value: x",
            Code::InvalidArgument,
        ),
        (
            MiniRayError::Decode("x".to_string()),
            "failed to decode value: x",
            Code::InvalidArgument,
        ),
        (
            MiniRayError::TaskFailed("x".to_string()),
            "task failed: x",
            Code::FailedPrecondition,
        ),
        (
            MiniRayError::Scheduler("x".to_string()),
            "scheduler error: x",
            Code::FailedPrecondition,
        ),
        (
            MiniRayError::Transport("x".to_string()),
            "transport error: x",
            Code::FailedPrecondition,
        ),
    ];
    for (error, text, code) in cases {
        assert_eq!(error.to_string(), text);
        let status = status_from_error(error);
        assert_eq!(status.code, code);
        assert_eq!(status.message, text);
    }
}
