use chaos_core::tts::wav::TtsPcm16Result;
use chaos_core::voice_chat::{
    check_request, chunk_len, reply_text, split_into_chunks, ChunkStream, VoiceChatError,
};

fn piece(pcm16: Vec<i16>) -> TtsPcm16Result {
    TtsPcm16Result { sample_rate: 1000, channels: 1, pcm16, duration_ms: 0 }
}

#[test]
fn chunk_len_from_rate_and_ms() {
    assert_eq!(chunk_len(16000, 100), 1600);
    assert_eq!(chunk_len(24000, 100), 2400);
    assert_eq!(chunk_len(5, 100), 1);
    assert_eq!(chunk_len(0, 100), 1);
}

#[test]
fn split_into_chunks_cuts_and_numbers() {
    let pcm: Vec<i16> = (1..=7).collect();
    let out = split_into_chunks(&pcm, 3, 10, true);
    assert_eq!(out.len(), 3);
    assert_eq!(out[0].pcm16, vec![1, 2, 3]);
    assert_eq!(out[1].pcm16, vec![4, 5, 6]);
    assert_eq!(out[2].pcm16, vec![7]);
    assert_eq!(out.iter().map(|c| c.seq).collect::<Vec<_>>(), vec![10, 11, 12]);
    assert_eq!(out.iter().map(|c| c.is_last).collect::<Vec<_>>(), vec![false, false, true]);
}

#[test]
fn split_into_chunks_not_last_marks_nothing() {
    let pcm: Vec<i16> = vec![5; 6];
    let out = split_into_chunks(&pcm, 3, 0, false);
    assert_eq!(out.len(), 2);
    assert!(out.iter().all(|c| !c.is_last));
}

#[test]
fn split_into_chunks_empty() {
    assert!(split_into_chunks(&[], 4, 0, true).is_empty());
}

#[test]
fn chunks_join_back_to_input() {
    let pcm: Vec<i16> = (0..1000).map(|i| (i * 7 % 301) as i16).collect();
    for n in [1u64, 2, 3, 7, 999, 1000, 1001] {
        let out = split_into_chunks(&pcm, n, 0, true);
        let joined: Vec<i16> = out.iter().flat_map(|c| c.pcm16.iter().copied()).collect();
        assert_eq!(joined, pcm);
    }
}

#[test]
fn chunk_stream_holds_back_newest_piece() {
    let mut s = ChunkStream::new(2);
    assert!(s.push_piece(piece(vec![1, 2, 3])).is_empty());
    let first = s.push_piece(piece(vec![4, 5]));
    assert_eq!(first.len(), 2);
    assert_eq!(first[0].pcm16, vec![1, 2]);
    assert_eq!(first[1].pcm16, vec![3]);
    assert!(first.iter().all(|c| !c.is_last));
    let last = s.finish();
    assert_eq!(last.len(), 1);
    assert_eq!(last[0].seq, 2);
    assert_eq!(last[0].pcm16, vec![4, 5]);
    assert!(last[0].is_last);
    assert_eq!(s.next_seq, 3);
    assert!(s.pending.is_none());
    assert!(s.finish().is_empty());
}

#[test]
fn chunk_stream_cuts_each_piece_at_its_own_rate() {
    let mut s = ChunkStream::new(2);
    assert!(s.push_piece(TtsPcm16Result { sample_rate: 2000, channels: 1, pcm16: (0..9).collect(), duration_ms: 0 }).is_empty());
    let a = s.push_piece(piece(vec![100, 101, 102]));
    assert_eq!(a.iter().map(|c| c.pcm16.len()).collect::<Vec<_>>(), vec![4, 4, 1]);
    let b = s.finish();
    assert_eq!(b.iter().map(|c| c.pcm16.len()).collect::<Vec<_>>(), vec![2, 1]);
    let all: Vec<_> = a.iter().chain(b.iter()).collect();
    assert_eq!(all.iter().map(|c| c.seq).collect::<Vec<_>>(), vec![0, 1, 2, 3, 4]);
    assert_eq!(all.iter().map(|c| c.is_last).collect::<Vec<_>>(), vec![false, false, false, false, true]);
    let samples: Vec<i16> = all.iter().flat_map(|c| c.pcm16.iter().copied()).collect();
    let mut expected: Vec<i16> = (0..9).collect();
    expected.extend([100, 101, 102]);
    assert_eq!(samples, expected);
}

#[test]
fn check_request_errors_in_order() {
    assert!(matches!(check_request(true, 0, "", "", ""), Err(VoiceChatError::Canceled)));
    match check_request(false, 0, "a", "b", "c") {
        Err(VoiceChatError::Internal(m)) => assert_eq!(m, "chunk_ms must be > 0"),
        other => panic!("unexpected {other:?}"),
    }
    match check_request(false, 100, "  ", "b", "c") {
        Err(VoiceChatError::Internal(m)) => assert_eq!(m, "spk_id is empty"),
        other => panic!("unexpected {other:?}"),
    }
    match check_request(false, 100, "a", "\t", "c") {
        Err(VoiceChatError::Internal(m)) => assert_eq!(m, "llm_ckpt is empty"),
        other => panic!("unexpected {other:?}"),
    }
    match check_request(false, 100, "a", "b", "") {
        Err(VoiceChatError::Internal(m)) => assert_eq!(m, "flow_ckpt is empty"),
        other => panic!("unexpected {other:?}"),
    }
    assert!(check_request(false, 100, "spk", "llm.pt", "flow.pt").is_ok());
}

#[test]
fn reply_text_trims_and_cuts() {
    assert_eq!(reply_text("  hello world \n", 100), "hello world");
    assert_eq!(reply_text("  hello world \n", 5), "hello");
    assert_eq!(reply_text("你好吗", 6), "你好");
    assert_eq!(reply_text("", 0), "");
}
