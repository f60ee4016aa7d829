use krill::engine::events::{Listener, Listeners, Propagate};
use krill::engine::process::ProcessBuilder;
use krill::engine::resources::{HasResources, Resources};
use krill::engine::surface::{Exit, SurfaceResource};

struct ResourceA(u32);

struct ResourceB(f32);

struct ResourceC(&'static str);

#[test]
fn setup() {
    let builder = ProcessBuilder::new()
        .setup(|_: ()| (ResourceA(25u32), ()))
        .setup(|(ResourceA(int), ()): (ResourceA, ())| (ResourceA(int + 5), (ResourceC("string"), ())))
        .setup(|_s: (ResourceC, ())| (ResourceB(0.7f32), ()));
    let mut resources = Resources::new(builder.into_resources());

    let (res_a, (res_b, ())) = resources.get_some::<(ResourceA, (ResourceB, ())), _>();
    assert_eq!(res_a.0, 30u32);
    assert_eq!(res_b.0, 0.7f32);
}

#[test]
fn get_resources_individually() {
    let mut res = Resources::new((ResourceA(10u32), (ResourceB(0.7f32), (ResourceC("Hello"), ()))));

    {
        let res_a: &mut ResourceA = res.get();
        assert_eq!(res_a.0, 10u32);
    }
    {
        let res_b: &mut ResourceB = res.get();
        assert_eq!(res_b.0, 0.7f32);
    }
    {
        let res_c: &mut ResourceC = res.get();
        assert_eq!(res_c.0, "Hello");
    }
}

#[test]
fn get_resources_bulk() {
    let mut res = Resources::new((ResourceA(10u32), (ResourceB(0.7f32), (ResourceC("Hello"), ()))));

    {
        let (res_a, (res_c, ())) = res.get_some::<(ResourceA, (ResourceC, ())), _>();
        assert_eq!(res_a.0, 10u32);
        assert_eq!(res_c.0, "Hello");
    }
}

#[test]
fn has_resources_trait() {
    fn takes_resources<R, SI>(resources: &mut Resources<R>) -> bool
        where for<'a> Resources<R>: HasResources<'a, (ResourceC, (ResourceB, ())), SI> {
        let (res_c, (res_b, ())) = resources.res();

        assert_eq!(res_c.0, "Hello");
        assert_eq!(res_b.0, 0.7f32);

        true
    }

    {
        let mut res = Resources::new((ResourceA(10u32), (ResourceB(0.7f32), (ResourceC("Hello"), ()))));
        assert!(takes_resources(&mut res));
    }
    {
        let mut res = Resources::new((ResourceC("Hello"), (ResourceB(0.7f32), ())));
        assert!(takes_resources(&mut res));
    }
}

struct Add(u32);

struct Record;

impl Listener<u32, Vec<u32>> for Record {
    fn call(&mut self, event: u32, mut context: Box<dyn Propagate<u32, Vec<u32>> + '_>) {
        context.resources().push(event);
        assert_eq!(context.next(event + 1), Some(()));
    }
}

impl Listener<u32, Vec<u32>> for Add {
    fn call(&mut self, event: u32, mut context: Box<dyn Propagate<u32, Vec<u32>> + '_>) {
        context.resources().push(event + self.0);
        assert_eq!(context.next(event), None);
    }
}

#[test]
fn listeners_are_called_front_to_back() {
    let mut listeners = Listeners::new().with_listener(Box::new(Record)).with_listener(Box::new(Add(10)));
    let mut log = Vec::new();
    listeners.dispatch(1, &mut log);
    assert_eq!(log, vec![1, 12]);
}

#[test]
fn surface_and_exit() {
    let mut surface = SurfaceResource::new(3u8);
    *surface.surface_mut() += 1;
    assert_eq!(*surface.surface(), 4);
    assert!(matches!(Exit::default(), Exit::Status(0)));
}

#[test]
fn each_listener_hands_on_the_rest() {
    let mut listeners = Listeners::new()
        .with_listener(Box::new(Record))
        .with_listener(Box::new(Record))
        .with_listener(Box::new(Add(10)));
    let mut log = Vec::new();
    listeners.dispatch(1, &mut log);
    assert_eq!(log, vec![1, 2, 13]);
}
