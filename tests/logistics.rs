use praborrow::{Hilirisasi, RawResource, Sovereign};

struct DataPacket {
    id: u64,
}

struct MyPipeline;

impl Hilirisasi for MyPipeline {
    type Raw = DataPacket;
    type Product = DataPacket;

    fn refine(raw: RawResource<DataPacket>) -> Sovereign<DataPacket> {
        Sovereign::new(raw.into_inner())
    }
}

#[test]
fn test_logistics_flow() {
    let packet = DataPacket { id: 101 };
    let raw = RawResource::new(packet);
    let future = raw.give_to_hardware();
    let returned = future.wait();
    assert_eq!(returned.get().id, 101);
}

#[test]
fn refined_resource_is_domestic() {
    let product = MyPipeline::refine(RawResource::new(DataPacket { id: 7 }));
    assert_eq!(product.read(0).unwrap().id, 7);
}
