use blaze::world::World;

fn sample_buffer(len: usize) -> Vec<u8> {
    (0..len).map(|i| (i % 253) as u8).collect()
}

#[test]
fn scenario_two_and_a_half_chunks() {
    // L = 2500: three chunks; the last holds 452 real bytes then 572 zeros;
    // the progress sequence is 33, 66, 100.
    let buffer = sample_buffer(2500);
    let packets = World::generate_packets(&buffer);
    assert_eq!(packets.len(), 3);
    let percents: Vec<u8> = packets.iter().map(|p| p.percent_complete).collect();
    assert_eq!(percents, vec![33, 66, 100]);
    for p in &packets {
        assert_eq!(p.base.packet_id, 0x03);
        assert_eq!(p.chunk_length, 1024);
        assert_eq!(p.chunk_data.len(), 1024);
    }
    assert_eq!(packets[0].chunk_data.as_slice(), &buffer[0..1024]);
    assert_eq!(packets[1].chunk_data.as_slice(), &buffer[1024..2048]);
    assert_eq!(&packets[2].chunk_data[..452], &buffer[2048..2500]);
    for i in 452..1024 {
        assert_eq!(packets[2].chunk_data[i], 0x00);
    }
}

#[test]
fn empty_buffer_yields_no_chunks() {
    let packets = World::generate_packets(&Vec::new());
    assert_eq!(packets.len(), 0);
}

#[test]
fn chunk_count_is_length_rounded_up() {
    for (len, expected) in [(1usize, 1usize), (1023, 1), (1024, 1), (1025, 2), (2048, 2), (4097, 5)]
    {
        let buffer = sample_buffer(len);
        assert_eq!(World::generate_packets(&buffer).len(), expected, "len {}", len);
    }
}

#[test]
fn concatenated_real_bytes_reproduce_the_buffer() {
    for len in [1usize, 1000, 1024, 1500, 2048, 3000] {
        let buffer = sample_buffer(len);
        let packets = World::generate_packets(&buffer);
        let mut rebuilt: Vec<u8> = Vec::new();
        let total = packets.len();
        for (i, p) in packets.iter().enumerate() {
            let real = if i + 1 < total { 1024 } else { len - 1024 * (total - 1) };
            rebuilt.extend_from_slice(&p.chunk_data[..real]);
        }
        assert_eq!(rebuilt, buffer, "len {}", len);
    }
}

#[test]
fn progress_is_monotonic_and_ends_at_100() {
    for len in [1usize, 1024, 2500, 10240, 123456] {
        let buffer = sample_buffer(len);
        let packets = World::generate_packets(&buffer);
        let mut last: u8 = 0;
        for p in &packets {
            assert!(p.percent_complete >= last);
            last = p.percent_complete;
        }
        assert_eq!(last, 100);
    }
}

#[test]
fn chunking_is_deterministic() {
    let buffer = sample_buffer(3000);
    let first = World::generate_packets(&buffer);
    let second = World::generate_packets(&buffer);
    assert_eq!(first.len(), second.len());
    for (a, b) in first.iter().zip(second.iter()) {
        assert_eq!(a.chunk_data, b.chunk_data);
        assert_eq!(a.percent_complete, b.percent_complete);
        assert_eq!(a.chunk_length, b.chunk_length);
    }
}
