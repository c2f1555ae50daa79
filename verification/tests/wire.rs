//! The messages as they lie in guest memory.
use virtio_snd::virtio_sound::{
    VirtioSndPcmSetParams, VirtioSoundConfig, VirtioSoundHeader, VirtioSoundPcmHeader,
    VirtioSoundPcmInfo, VirtioSoundPcmStatus, VirtioSoundPcmXfer, VirtioSoundQueryInfo, CONFIG_SIZE,
    PCM_INFO_SIZE, STATUS_SIZE, VIRTIO_SND_S_BAD_MSG,
};

#[test]
fn header_is_little_endian() {
    let header = VirtioSoundHeader { code: 0x0102_0304 };
    assert_eq!(header.to_vec(), vec![4, 3, 2, 1]);
    assert_eq!(VirtioSoundHeader::from_slice(&[4, 3, 2, 1]), header);
}

#[test]
fn header_is_read_back() {
    for code in [0, 1, 0xff, 0x100, VIRTIO_SND_S_BAD_MSG, u32::MAX] {
        let bytes = VirtioSoundHeader { code }.to_vec();
        assert_eq!(VirtioSoundHeader::from_slice(&bytes).code, code);
    }
}

#[test]
fn query_is_read() {
    let bytes = [0, 1, 0, 0, 2, 0, 0, 0, 3, 0, 0, 0, 32, 0, 0, 0];
    let query = VirtioSoundQueryInfo::from_slice(&bytes);
    assert_eq!(query.hdr.code, 0x100);
    assert_eq!(query.start_id, 2);
    assert_eq!(query.count, 3);
    assert_eq!(query.size, 32);
}

#[test]
fn stream_request_is_read() {
    let request = VirtioSoundPcmHeader::from_slice(&[4, 1, 0, 0, 0, 0, 0, 0x80]);
    assert_eq!(request.hdr.code, 0x104);
    assert_eq!(request.stream_id, 0x8000_0000);
}

#[test]
fn parameters_are_read() {
    let bytes = [
        1, 1, 0, 0, 1, 0, 0, 0, 0, 0x20, 0, 0, 0, 0x10, 0, 0, 7, 0, 0, 0, 2, 5, 6, 9,
    ];
    let request = VirtioSndPcmSetParams::from_slice(&bytes);
    assert_eq!(request.hdr.hdr.code, 0x101);
    assert_eq!(request.hdr.stream_id, 1);
    assert_eq!(request.buffer_bytes, 0x2000);
    assert_eq!(request.period_bytes, 0x1000);
    assert_eq!(request.features, 7);
    assert_eq!(request.channels, 2);
    assert_eq!(request.format, 5);
    assert_eq!(request.rate, 6);
    assert_eq!(request.padding, 9);
}

#[test]
fn transfer_head_is_read() {
    assert_eq!(VirtioSoundPcmXfer::from_slice(&[1, 2, 0, 0]).stream_id, 0x201);
}

#[test]
fn transfer_status_is_written() {
    let status = VirtioSoundPcmStatus { status: 0x8000, latency_bytes: 3 };
    let bytes = status.to_vec();
    assert_eq!(bytes.len(), STATUS_SIZE);
    assert_eq!(bytes, vec![0, 0x80, 0, 0, 3, 0, 0, 0]);
}

#[test]
fn stream_description_is_written() {
    let info = VirtioSoundPcmInfo {
        hda_fn_nid: 1,
        features: 2,
        formats: 0x0102_0304_0506_0708,
        rates: 9,
        direction: 1,
        channels_min: 1,
        channels_max: 6,
    };
    let mut out = vec![0xee];
    info.append_to(&mut out);
    assert_eq!(out.len(), 1 + PCM_INFO_SIZE);
    assert_eq!(
        out,
        vec![
            0xee, 1, 0, 0, 0, 2, 0, 0, 0, 8, 7, 6, 5, 4, 3, 2, 1, 9, 0, 0, 0, 0, 0, 0, 0, 1, 1, 6,
            0, 0, 0, 0, 0
        ]
    );
}

#[test]
fn configuration_is_written() {
    let bytes = VirtioSoundConfig { jacks: 0, streams: 1, chmaps: 0 }.to_vec();
    assert_eq!(bytes.len(), CONFIG_SIZE);
    assert_eq!(bytes, vec![0, 0, 0, 0, 1, 0, 0, 0, 0, 0, 0, 0]);
}
